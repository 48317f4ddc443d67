//! What functions answer to callers, over the stored columns and over each
//! other's answers.

use vstd::prelude::*;

use super::bundles::law_unsigned_setup_is_cleared;
use super::reads::{
    law_rounds_are_listed, law_secrets_by_columns, law_shares_by_columns, law_votes_are_listed,
    law_witness_by_columns, law_witnesses_are_listed,
};
use super::rounds::law_proof_generated_by_columns;
use super::shares::law_unconfirmed_shares_are_a_filter;
use super::votes::{
    law_expected_van_by_columns, law_submission_follows_intent,
    law_submission_spends_loaded_authority, law_van_tree_entries_listed,
};
use crate::storage::{RoundState, RoundSummary};
use crate::storage::field::ImtProofData;
use crate::storage::queries::bundles::{
    bundles_of, capability_confirmed_outcome, get_bundle_count, load_bundle_note_positions,
    load_van_position, note_positions_outcome, require_bundle_notes,
    require_capability_delegations_confirmed, require_notes_outcome,
    round_has_imported_capability_bundles, van_position_outcome,
};
use crate::storage::queries::confirmations::{
    get_delegation_tx_hash, lists_confirmed, load_van_tree_entries, load_zkp2_inputs, proposals_fit,
    submitted_proposals_fit, van_tree_entries, zkp2_outcome, VanTreeEntry, VanTreeModel,
    Zkp2DelegationData,
};
use crate::storage::queries::delegation::{
    load_alpha, load_cmx_new, load_delegation_submission_data, load_dummy_nullifiers,
    load_nf_signed, load_padded_cmx, load_padded_note_secrets, load_padded_note_secrets_optional,
    load_pczt_sighash, load_rho_signed, load_rseed_output, load_rseed_signed, load_tx1_effects,
    load_van_comm_rand, stored_tx1_effects, submission_outcome, DelegationDbFields,
};
use crate::storage::queries::proofs::{imt_proof_outcome, load_imt_proof, load_tree_state};
use crate::storage::queries::recovery::{
    clear_unsigned_delegation_setup_fields, get_keystone_signatures, lists_signatures,
    signature_record,
};
use crate::storage::queries::rounds::{
    get_round_state, has_round, list_rounds, lists_rounds, load_round_network, load_round_params,
    load_round_params_with_network, round_summaries,
};
use crate::storage::queries::shares::{
    get_share_delegations, get_unconfirmed_delegations, lists_shares, share_records,
};
use crate::storage::queries::votes::{
    commitment_bundle_outcome, ensure_no_submitted_vote_conflict_for_intent, get_commitment_bundle,
    get_commitment_bundle_recovery, get_vote_tx_hash, get_votes, intent_conflict_outcome,
    lists_votes, load_ballot_intent, load_vote_choice_for_intent_check, record_vote_submission,
};
use crate::storage::queries::witnesses::{
    has_witnesses, lists_witnesses, load_witnesses, stored_witnesses, witness_count,
};
use crate::storage::rows::{
    round_key, BundleKey, ImtKey, IntentKey, RoundKey, ShareKey, VoteKey, WitnessKey,
};
use crate::storage::tables::VotingTables;
use crate::types::{
    all_or_first, answers, notes_of, Bytes, Fault, KeystoneSignatureRecord, Modeled, Network,
    NoteInfo, ShareDelegationRecord, ShareModel, VoteRecord, VotingError, VotingRoundParams,
    WitnessData,
};

verus! {

/// Each column of a stored bundle is loaded by the function that is named after
/// it; an empty column is loaded as an empty byte string.
pub proof fn law_loaders_read_their_columns(
    tables: &VotingTables,
    round_id: &str,
    wallet_id: &str,
    bundle_index: u32,
    van_comm_rand: Result<Vec<u8>, VotingError>,
    rho_signed: Result<Vec<u8>, VotingError>,
    nf_signed: Result<Vec<u8>, VotingError>,
    cmx_new: Result<Vec<u8>, VotingError>,
    alpha: Result<Vec<u8>, VotingError>,
    rseed_signed: Result<Vec<u8>, VotingError>,
    rseed_output: Result<Vec<u8>, VotingError>,
    pczt_sighash: Result<Vec<u8>, VotingError>,
    tx1_effects: Result<Vec<u8>, VotingError>,
    valid: Result<(), VotingError>,
    judged: Result<Vec<u8>, VotingError>,
)
    requires
        call_ensures(load_van_comm_rand, (tables, round_id, wallet_id, bundle_index), van_comm_rand),
        call_ensures(load_rho_signed, (tables, round_id, wallet_id, bundle_index), rho_signed),
        call_ensures(load_nf_signed, (tables, round_id, wallet_id, bundle_index), nf_signed),
        call_ensures(load_cmx_new, (tables, round_id, wallet_id, bundle_index), cmx_new),
        call_ensures(load_alpha, (tables, round_id, wallet_id, bundle_index), alpha),
        call_ensures(load_rseed_signed, (tables, round_id, wallet_id, bundle_index), rseed_signed),
        call_ensures(load_rseed_output, (tables, round_id, wallet_id, bundle_index), rseed_output),
        call_ensures(load_pczt_sighash, (tables, round_id, wallet_id, bundle_index), pczt_sighash),
        call_ensures(
            stored_tx1_effects,
            (tables, round_id, wallet_id, bundle_index),
            tx1_effects,
        ),
        call_ensures(load_tx1_effects, (tables, round_id, wallet_id, bundle_index, valid), judged),
    ensures
        ({
            let key = BundleKey {
                round: RoundKey { round_id: round_id@, wallet_id: wallet_id@ },
                bundle_index: bundle_index as i64,
            };
            let stored = tables@.bundles.contains_key(key);
            let bundle = tables@.bundles[key];
            let bytes = |column: Option<Bytes>|
                match column {
                    Some(value) => value,
                    None => Seq::empty(),
                };
            &&& van_comm_rand is Ok <==> stored
            &&& van_comm_rand matches Ok(read) ==> read@ == bytes(bundle.van_comm_rand)
            &&& rho_signed is Ok <==> stored
            &&& rho_signed matches Ok(read) ==> read@ == bytes(bundle.rho_signed)
            &&& nf_signed is Ok <==> stored
            &&& nf_signed matches Ok(read) ==> read@ == bytes(bundle.nf_signed)
            &&& cmx_new is Ok <==> stored
            &&& cmx_new matches Ok(read) ==> read@ == bytes(bundle.cmx_new)
            &&& alpha is Ok <==> stored
            &&& alpha matches Ok(read) ==> read@ == bytes(bundle.alpha)
            &&& rseed_signed is Ok <==> stored
            &&& rseed_signed matches Ok(read) ==> read@ == bytes(bundle.rseed_signed)
            &&& rseed_output is Ok <==> stored
            &&& rseed_output matches Ok(read) ==> read@ == bytes(bundle.rseed_output)
            &&& pczt_sighash is Ok <==> stored
            &&& pczt_sighash matches Ok(read) ==> read@ == bytes(bundle.pczt_sighash)
            &&& tx1_effects is Ok <==> stored
            &&& tx1_effects matches Ok(read) ==> read@ == bytes(bundle.tx1_effects)
            &&& judged is Ok <==> stored && valid is Ok
            &&& judged matches Ok(read) ==> read@ == bytes(bundle.tx1_effects)
        }),
{
}

/// The lists of hashes of a stored bundle are loaded as the pieces of 32 bytes
/// of their columns.
pub proof fn law_hash_lists_read_their_columns(
    tables: &VotingTables,
    round_id: &str,
    wallet_id: &str,
    bundle_index: u32,
    nullifiers: Result<Vec<Vec<u8>>, VotingError>,
    commitments: Result<Vec<Vec<u8>>, VotingError>,
    i: int,
)
    requires
        call_ensures(
            load_dummy_nullifiers,
            (tables, round_id, wallet_id, bundle_index),
            nullifiers,
        ),
        call_ensures(load_padded_cmx, (tables, round_id, wallet_id, bundle_index), commitments),
    ensures
        ({
            let key = BundleKey {
                round: RoundKey { round_id: round_id@, wallet_id: wallet_id@ },
                bundle_index: bundle_index as i64,
            };
            let stored = tables@.bundles.contains_key(key);
            let bytes = |column: Option<Bytes>|
                match column {
                    Some(value) => value,
                    None => Seq::empty(),
                };
            let first = bytes(tables@.bundles[key].dummy_nullifiers);
            let second = bytes(tables@.bundles[key].padded_note_data);
            &&& nullifiers is Ok <==> stored && first.len() % 32 == 0
            &&& nullifiers matches Ok(read) ==> read@.len() == first.len() / 32 && (0 <= i
                < read@.len() ==> read@[i]@ == first.subrange(32 * i, 32 * i + 32))
            &&& commitments is Ok <==> stored && second.len() % 32 == 0
            &&& commitments matches Ok(read) ==> read@.len() == second.len() / 32 && (0 <= i
                < read@.len() ==> read@[i]@ == second.subrange(32 * i, 32 * i + 32))
        }),
{
    if let Ok(read) = nullifiers {
        assert(read.model().len() == read@.len());
        if 0 <= i < read@.len() {
            assert(read.model()[i] == read@[i]@);
        }
    }
    if let Ok(read) = commitments {
        assert(read.model().len() == read@.len());
        if 0 <= i < read@.len() {
            assert(read.model()[i] == read@[i]@);
        }
    }
}

/// Padding secrets that are needed are the optional ones where there are any.
pub proof fn law_needed_secrets_are_the_optional_ones(
    tables: &VotingTables,
    round_id: &str,
    wallet_id: &str,
    bundle_index: u32,
    optional: Result<Option<Vec<(Vec<u8>, Vec<u8>)>>, VotingError>,
    needed: Result<Vec<(Vec<u8>, Vec<u8>)>, VotingError>,
)
    requires
        call_ensures(
            load_padded_note_secrets_optional,
            (tables, round_id, wallet_id, bundle_index),
            optional,
        ),
        call_ensures(
            load_padded_note_secrets,
            (tables, round_id, wallet_id, bundle_index),
            needed,
        ),
    ensures
        needed is Ok <==> optional is Ok && optional->Ok_0 is Some,
        needed is Ok ==> needed->Ok_0.model() == optional->Ok_0->Some_0.model(),
        optional matches Err(error) ==> needed->Err_0@ == error@,
{
    law_secrets_by_columns(tables@, round_id@, wallet_id@, bundle_index);
}

/// A round that is stored is known, and all that is read of it agrees: its
/// state, its parameters with and without its network, and its network.
pub proof fn law_rounds_are_read_alike(
    tables: &VotingTables,
    round_id: &str,
    wallet_id: &str,
    known: Result<bool, VotingError>,
    state: Result<RoundState, VotingError>,
    params: Result<VotingRoundParams, VotingError>,
    both: Result<(VotingRoundParams, Network), VotingError>,
    network: Result<Network, VotingError>,
)
    requires
        call_ensures(has_round, (tables, round_id, wallet_id), known),
        call_ensures(get_round_state, (tables, round_id, wallet_id), state),
        call_ensures(load_round_params, (tables, round_id, wallet_id), params),
        call_ensures(load_round_params_with_network, (tables, round_id, wallet_id), both),
        call_ensures(load_round_network, (tables, round_id, wallet_id), network),
    ensures
        known is Ok,
        known->Ok_0 <==> tables@.rounds.contains_key(
            RoundKey { round_id: round_id@, wallet_id: wallet_id@ },
        ),
        !known->Ok_0 ==> state is Err && params is Err && both is Err && network is Err,
        both is Ok <==> params is Ok,
        both is Ok <==> network is Ok,
        both matches Ok((stored, found)) ==> {
            &&& stored.model() == params->Ok_0.model()
            &&& found == network->Ok_0
            &&& stored.vote_round_id@ == round_id@
        },
        state matches Ok(read) ==> {
            &&& both is Ok
            &&& read.round_id@ == round_id@
            &&& read.network == network->Ok_0
            &&& read.snapshot_height == params->Ok_0.snapshot_height
        },
{
}

/// A listed round is one of the wallet, and is listed as its state says.
pub proof fn law_listed_rounds_agree_with_states(
    tables: &VotingTables,
    wallet_id: &str,
    listed: Result<Vec<RoundSummary>, VotingError>,
    i: int,
    round_id: &str,
    state: Result<RoundState, VotingError>,
)
    requires
        call_ensures(list_rounds, (tables, wallet_id), listed),
        listed is Ok,
        0 <= i < listed->Ok_0@.len(),
        round_id@ == listed->Ok_0@[i].round_id@,
        call_ensures(get_round_state, (tables, round_id, wallet_id), state),
    ensures
        listed->Ok_0@[i].wallet_id@ == wallet_id@,
        state is Ok,
        state->Ok_0.phase == listed->Ok_0@[i].phase,
        state->Ok_0.network == listed->Ok_0@[i].network,
        state->Ok_0.snapshot_height == listed->Ok_0@[i].snapshot_height,
{
    let keys = choose|keys: Seq<RoundKey>| #[trigger]
        lists_rounds(keys, tables@, wallet_id@) && answers(
            listed,
            all_or_first(round_summaries(keys, tables@)),
        );
    law_rounds_are_listed(tables@, wallet_id@, keys);
    let summaries = listed->Ok_0.model();
    assert(summaries[i] == listed->Ok_0@[i].model());
    assert(keys.contains(keys[i]));
}

/// Witnesses are cached exactly if they count more than none, and as many are
/// loaded as are counted.
pub proof fn law_witnesses_are_counted(
    tables: &VotingTables,
    round_id: &str,
    wallet_id: &str,
    bundle_index: u32,
    cached: Result<bool, VotingError>,
    count: Result<usize, VotingError>,
    loaded: Result<Vec<WitnessData>, VotingError>,
)
    requires
        call_ensures(has_witnesses, (tables, round_id, wallet_id, bundle_index), cached),
        call_ensures(witness_count, (tables, round_id, wallet_id, bundle_index), count),
        call_ensures(load_witnesses, (tables, round_id, wallet_id, bundle_index), loaded),
    ensures
        cached is Ok && count is Ok,
        cached->Ok_0 <==> count->Ok_0 > 0,
        cached->Ok_0 <==> exists|key: WitnessKey| #[trigger]
            tables@.witnesses.contains_key(key) && key.bundle == (BundleKey {
                round: RoundKey { round_id: round_id@, wallet_id: wallet_id@ },
                bundle_index: bundle_index as i64,
            }),
        loaded matches Ok(witnesses) ==> witnesses@.len() == count->Ok_0,
{
    let bundle = BundleKey {
        round: RoundKey { round_id: round_id@, wallet_id: wallet_id@ },
        bundle_index: bundle_index as i64,
    };
    let keys = choose|keys: Seq<WitnessKey>| #[trigger]
        lists_witnesses(keys, tables@, bundle) && answers(
            loaded,
            all_or_first(stored_witnesses(keys, tables@)),
        );
    keys.unique_seq_to_set();
    assert(keys.to_set() =~= crate::storage::queries::witnesses::witness_keys(tables@, bundle));
    assert forall|key: WitnessKey| #[trigger] keys.contains(key) <==> tables@.witnesses.contains_key(
        key,
    ) && key.bundle == bundle by {
        law_witnesses_are_listed(tables@, bundle, keys, key);
    }
    if keys.len() > 0 {
        assert(keys.contains(keys[0]));
    }
    if cached->Ok_0 {
        let key = choose|key: WitnessKey| #[trigger]
            tables@.witnesses.contains_key(key) && key.bundle == bundle;
        assert(keys.contains(key));
    }
    if let Ok(witnesses) = loaded {
        if keys.len() > 0 {
            law_witness_by_columns(tables@, keys, keys[0], tables@.witnesses[keys[0]]);
        } else {
            assert(stored_witnesses(keys, tables@) =~= Seq::empty());
        }
        assert(witnesses.model().len() == witnesses@.len());
    }
}

/// The unconfirmed shares of a round are those of all its shares that are not
/// marked as confirmed, in the same order.
pub proof fn law_unconfirmed_shares_are_among_all(
    tables: &VotingTables,
    round_id: &str,
    wallet_id: &str,
    all: Result<Vec<ShareDelegationRecord>, VotingError>,
    unconfirmed: Result<Vec<ShareDelegationRecord>, VotingError>,
)
    requires
        call_ensures(get_share_delegations, (tables, round_id, wallet_id), all),
        call_ensures(get_unconfirmed_delegations, (tables, round_id, wallet_id), unconfirmed),
        all is Ok,
    ensures
        unconfirmed is Ok,
        unconfirmed->Ok_0.model() == all->Ok_0.model().filter(
            |record: ShareModel| !record.confirmed,
        ),
        forall|i: int|
            0 <= i < all->Ok_0@.len() ==> (#[trigger] all->Ok_0@[i]).round_id@ == round_id@,
{
    let round = RoundKey { round_id: round_id@, wallet_id: wallet_id@ };
    let every = choose|keys: Seq<ShareKey>| #[trigger]
        lists_shares(keys, tables@, round, false) && answers(all, share_records(keys, tables@));
    let open = choose|keys: Seq<ShareKey>| #[trigger]
        lists_shares(keys, tables@, round, true) && answers(
            unconfirmed,
            share_records(keys, tables@),
        );
    law_unconfirmed_shares_are_a_filter(tables@, round, every, open);
    law_shares_by_columns(tables@, every);
    assert forall|i: int| 0 <= i < all->Ok_0@.len() implies (#[trigger] all->Ok_0@[i]).round_id@
        == round_id@ by {
        assert(all->Ok_0.model()[i] == all->Ok_0@[i].model());
        assert(every.to_set().contains(every[i]));
    }
}

/// A vote is listed for its round exactly if it is stored, and its transaction
/// and what is kept for its recovery are read exactly then.
pub proof fn law_stored_votes_are_listed(
    tables: &VotingTables,
    round_id: &str,
    wallet_id: &str,
    bundle_index: u32,
    proposal_id: u32,
    votes: Result<Vec<VoteRecord>, VotingError>,
    tx_hash: Result<Option<String>, VotingError>,
    recovery: Result<Option<(Option<String>, Option<i64>)>, VotingError>,
)
    requires
        call_ensures(get_votes, (tables, round_id, wallet_id), votes),
        call_ensures(
            get_vote_tx_hash,
            (tables, round_id, wallet_id, bundle_index, proposal_id),
            tx_hash,
        ),
        call_ensures(
            get_commitment_bundle_recovery,
            (tables, round_id, wallet_id, bundle_index, proposal_id),
            recovery,
        ),
    ensures
        ({
            let key = VoteKey {
                bundle: BundleKey {
                    round: RoundKey { round_id: round_id@, wallet_id: wallet_id@ },
                    bundle_index: bundle_index as i64,
                },
                proposal_id: proposal_id as i64,
            };
            let stored = tables@.votes.contains_key(key);
            let vote = tables@.votes[key];
            &&& votes is Ok
            &&& stored ==> votes->Ok_0@.contains(
                VoteRecord { proposal_id, bundle_index, choice: vote.choice as u32 },
            )
            &&& tx_hash is Ok <==> stored
            &&& tx_hash matches Ok(found) ==> found.model() == vote.tx_hash
            &&& recovery is Ok
            &&& recovery->Ok_0 is Some <==> stored
            &&& recovery->Ok_0 matches Some((json, position)) ==> json.model()
                == vote.commitment_bundle_json && position == vote.vc_tree_position
        }),
{
    let round = RoundKey { round_id: round_id@, wallet_id: wallet_id@ };
    let key = VoteKey {
        bundle: BundleKey { round, bundle_index: bundle_index as i64 },
        proposal_id: proposal_id as i64,
    };
    let keys = choose|keys: Seq<VoteKey>| #[trigger]
        lists_votes(keys, tables@, round) && answers(
            votes,
            Ok(
                keys.map_values(
                    |key: VoteKey|
                        crate::storage::queries::votes::vote_record(key, tables@.votes[key]),
                ),
            ),
        );
    if tables@.votes.contains_key(key) {
        law_votes_are_listed(tables@, round, keys, key, tables@.votes[key]);
        let i = choose|i: int| 0 <= i < keys.len() && keys[i] == key;
        assert(votes->Ok_0@[i] == (VoteRecord {
            proposal_id,
            bundle_index,
            choice: tables@.votes[key].choice as u32,
        }));
    }
    if let Ok(Some((json, position))) = recovery {
        assert(recovery->Ok_0.model() == Some((json.model(), position.model())));
    }
}

/// Vote tree sync gets one entry for each confirmed bundle of the round and no
/// other. A bundle with a submitted vote has no VAN to expect; any other one is
/// expected to be in the tree as it was delegated, also where votes are stored
/// and not submitted.
pub proof fn law_sync_expects_undisturbed_vans(
    tables: &VotingTables,
    round_id: &str,
    wallet_id: &str,
    loaded: Result<Vec<VanTreeEntry>, VotingError>,
    key: BundleKey,
)
    requires
        call_ensures(load_van_tree_entries, (tables, round_id, wallet_id), loaded),
        loaded is Ok,
        key.round == (RoundKey { round_id: round_id@, wallet_id: wallet_id@ }),
    ensures
        ({
            let bundle = tables@.bundles[key];
            let submitted = exists|vote: VoteKey| #[trigger]
                tables@.votes.contains_key(vote) && vote.bundle == key
                    && tables@.votes[vote].tx_hash is Some;
            let entries = loaded->Ok_0.model();
            let listed = exists|i: int|
                0 <= i < entries.len() && (#[trigger] entries[i]).bundle_index == key.bundle_index;
            &&& listed <==> tables@.bundles.contains_key(key) && bundle.van_leaf_position is Some
            &&& forall|i: int|
                0 <= i < entries.len() && (#[trigger] entries[i]).bundle_index == key.bundle_index
                    ==> {
                    &&& bundle.van_leaf_position == Some(entries[i].position as i64)
                    &&& submitted ==> entries[i].expected_delegation_van is None
                    &&& !submitted ==> bundle.gov_comm is Some
                        && entries[i].expected_delegation_van == bundle.gov_comm
                }
        }),
{
    let round = RoundKey { round_id: round_id@, wallet_id: wallet_id@ };
    let keys = choose|keys: Seq<BundleKey>| #[trigger]
        lists_confirmed(keys, tables@, round_key(round_id@, wallet_id@)) && answers(
            loaded,
            all_or_first(van_tree_entries(keys, tables@)),
        );
    let entries = loaded->Ok_0.model();
    assert(all_or_first(van_tree_entries(keys, tables@)) == Ok::<Seq<VanTreeModel>, Fault>(entries));
    law_van_tree_entries_listed(tables@, round, keys);
    assert forall|i: int| 0 <= i < keys.len() implies (#[trigger] entries[i]).bundle_index
        == keys[i].bundle_index && keys[i].round == round by {
        assert(keys.contains(keys[i]));
        law_expected_van_by_columns(tables@, keys[i]);
    }
    if tables@.bundles.contains_key(key) && tables@.bundles[key].van_leaf_position is Some {
        assert(keys.contains(key));
        let i = choose|i: int| 0 <= i < keys.len() && keys[i] == key;
        assert(entries[i].bundle_index == key.bundle_index);
    }
    assert forall|i: int|
        0 <= i < entries.len() && (#[trigger] entries[i]).bundle_index == key.bundle_index implies {
        let bundle = tables@.bundles[key];
        let submitted = exists|vote: VoteKey| #[trigger]
            tables@.votes.contains_key(vote) && vote.bundle == key
                && tables@.votes[vote].tx_hash is Some;
        &&& tables@.bundles.contains_key(key)
        &&& bundle.van_leaf_position == Some(entries[i].position as i64)
        &&& submitted ==> entries[i].expected_delegation_van is None
        &&& !submitted ==> bundle.gov_comm is Some && entries[i].expected_delegation_van
            == bundle.gov_comm
    } by {
        assert(keys.contains(keys[i]));
        assert(keys[i] == key);
        law_expected_van_by_columns(tables@, key);
    }
}

/// The authority that is loaded after a vote was submitted is the one that was
/// loaded before, less the proposal that was voted on.
pub proof fn law_next_vote_lacks_spent_authority(
    before: &VotingTables,
    tables: &mut VotingTables,
    after: &VotingTables,
    round_id: &str,
    wallet_id: &str,
    bundle_index: u32,
    proposal_id: u32,
    tx_hash: &str,
    first: Result<Zkp2DelegationData, VotingError>,
    recorded: Result<(), VotingError>,
    second: Result<Zkp2DelegationData, VotingError>,
    i: u64,
)
    requires
        before@ == old(tables)@,
        after@ == final(tables)@,
        call_ensures(load_zkp2_inputs, (before, round_id, wallet_id, bundle_index), first),
        call_ensures(
            record_vote_submission,
            (tables, round_id, wallet_id, bundle_index, proposal_id, tx_hash),
            recorded,
        ),
        call_ensures(load_zkp2_inputs, (after, round_id, wallet_id, bundle_index), second),
        first is Ok,
        recorded is Ok,
        i < 64,
    ensures
        second is Ok,
        second->Ok_0.proposal_authority & (1u64 << i) != 0 <==> {
            &&& first->Ok_0.proposal_authority & (1u64 << i) != 0
            &&& i != proposal_id
        },
{
    law_submission_spends_loaded_authority(
        before@,
        round_id@,
        wallet_id@,
        bundle_index,
        proposal_id,
        tx_hash@,
    );
    law_submission_follows_intent(
        before@,
        round_id@,
        wallet_id@,
        bundle_index,
        proposal_id,
        tx_hash@,
    );
    let bundle = BundleKey {
        round: RoundKey { round_id: round_id@, wallet_id: wallet_id@ },
        bundle_index: bundle_index as i64,
    };
    let spent = VoteKey { bundle, proposal_id: proposal_id as i64 };
    let vote = VoteKey { bundle, proposal_id: i as i64 };
    if vote != spent {
        assert(before@.votes.remove(spent).contains_key(vote) == after@.votes.remove(
            spent,
        ).contains_key(vote));
        assert(before@.votes.contains_key(vote) ==> before@.votes.remove(spent)[vote]
            == after@.votes.remove(spent)[vote]);
    }
    assert(first->Ok_0.proposal_authority & (1u64 << i) != 0 <==> i < 16 && !(
    before@.votes.contains_key(vote) && before@.votes[vote].tx_hash is Some));
    assert(second->Ok_0.proposal_authority & (1u64 << i) != 0 <==> i < 16 && !(
    after@.votes.contains_key(vote) && after@.votes[vote].tx_hash is Some));
}

/// A vote is recorded as submitted only as the voter decided: not where the
/// proposal is to be skipped, and not with another choice than the decided one.
pub proof fn law_recorded_votes_follow_intent(
    tables: &mut VotingTables,
    round_id: &str,
    wallet_id: &str,
    bundle_index: u32,
    proposal_id: u32,
    tx_hash: &str,
    recorded: Result<(), VotingError>,
)
    requires
        call_ensures(
            record_vote_submission,
            (tables, round_id, wallet_id, bundle_index, proposal_id, tx_hash),
            recorded,
        ),
    ensures
        ({
            let round = RoundKey { round_id: round_id@, wallet_id: wallet_id@ };
            let decided = IntentKey { round, proposal_id: proposal_id as i64 };
            let key = VoteKey {
                bundle: BundleKey { round, bundle_index: bundle_index as i64 },
                proposal_id: proposal_id as i64,
            };
            let before = old(tables)@;
            let after = final(tables)@;
            let vote = before.votes[key];
            let intent = before.ballot_intents[decided];
            &&& recorded is Ok <==> {
                &&& before.votes.contains_key(key)
                &&& before.ballot_intents.contains_key(decided) ==> intent.skipped == 0
                    && intent.choice == Some(vote.choice)
                &&& vote.tx_hash is Some ==> vote.tx_hash == Some(tx_hash@)
            }
            &&& recorded is Ok ==> after.votes[key].tx_hash == Some(tx_hash@)
                && after.votes[key].choice == vote.choice
            &&& recorded is Err ==> after == before
        }),
{
    law_submission_follows_intent(
        old(tables)@,
        round_id@,
        wallet_id@,
        bundle_index,
        proposal_id,
        tx_hash@,
    );
}

/// Clearing the unsigned setup of a round reaches every bundle that was never
/// sent, whatever is stored of it, and no other.
pub proof fn law_unsigned_bundles_can_be_set_up_again(
    tables: &mut VotingTables,
    round_id: &str,
    wallet_id: &str,
    cleared: Result<(), VotingError>,
    key: BundleKey,
)
    requires
        call_ensures(
            clear_unsigned_delegation_setup_fields,
            (tables, round_id, wallet_id),
            cleared,
        ),
    ensures
        cleared is Ok,
        ({
            let before = old(tables)@.bundles[key];
            let after = final(tables)@.bundles[key];
            let unsigned = {
                &&& key.round == (RoundKey { round_id: round_id@, wallet_id: wallet_id@ })
                &&& before.note_positions_blob is Some
                &&& before.delegation_tx_hash is None
                &&& before.van_leaf_position is None
                &&& !old(tables)@.keystone_signatures.contains_key(key)
            };
            old(tables)@.bundles.contains_key(key) ==> {
                &&& final(tables)@.bundles.contains_key(key)
                &&& !unsigned ==> after == before
                &&& unsigned ==> after.rk is None && after.alpha is None && after.van_comm_rand is None
                    && after.gov_comm is None && after.pczt_sighash is None
                    && after.tx1_effects is None && after.padded_note_secrets is None
                    && after.gov_nullifiers_blob is None
            }
        }),
{
    law_unsigned_setup_is_cleared(
        old(tables)@,
        RoundKey { round_id: round_id@, wallet_id: wallet_id@ },
        key,
    );
}

/// A round is reported as delegated only once it has bundles and each of them
/// has landed, with a proof that succeeded or as a capability that was imported.
pub proof fn law_reported_rounds_have_landed(
    tables: &VotingTables,
    round_id: &str,
    wallet_id: &str,
    state: Result<RoundState, VotingError>,
    key: BundleKey,
)
    requires
        call_ensures(get_round_state, (tables, round_id, wallet_id), state),
        state matches Ok(state) && state.proof_generated,
        tables@.bundles.contains_key(key),
        key.round == (RoundKey { round_id: round_id@, wallet_id: wallet_id@ }),
    ensures
        tables@.bundles[key].van_leaf_position is Some,
        tables@.proofs.contains_key(key) && tables@.proofs[key].success == 1 || {
            &&& tables@.bundles[key].note_positions_blob is None
            &&& tables@.bundles[key].delegation_tx_hash is Some
            &&& tables@.bundles[key].gov_comm is Some
        },
{
    law_proof_generated_by_columns(tables@, round_id@, wallet_id@);
}

/// A round whose bundles have all landed with a proof that succeeded is
/// reported as delegated.
pub proof fn law_landed_rounds_are_reported(
    tables: &VotingTables,
    round_id: &str,
    wallet_id: &str,
    state: Result<RoundState, VotingError>,
    some: BundleKey,
)
    requires
        call_ensures(get_round_state, (tables, round_id, wallet_id), state),
        state is Ok,
        tables@.bundles.contains_key(some),
        some.round == (RoundKey { round_id: round_id@, wallet_id: wallet_id@ }),
        forall|key: BundleKey| #[trigger]
            tables@.bundles.contains_key(key) && key.round == some.round
                ==> tables@.bundles[key].van_leaf_position is Some
                && tables@.proofs.contains_key(key) && tables@.proofs[key].success == 1,
    ensures
        state->Ok_0.proof_generated,
{
    law_proof_generated_by_columns(tables@, round_id@, wallet_id@);
}

/// The transaction of a delegation, the tree state and the number of bundles are
/// read as they are stored.
pub proof fn law_stored_values_are_read(
    tables: &VotingTables,
    round_id: &str,
    wallet_id: &str,
    bundle_index: u32,
    tx_hash: Result<Option<String>, VotingError>,
    tree_state: Result<Vec<u8>, VotingError>,
    count: Result<u32, VotingError>,
)
    requires
        call_ensures(
            get_delegation_tx_hash,
            (tables, round_id, wallet_id, bundle_index),
            tx_hash,
        ),
        call_ensures(load_tree_state, (tables, round_id, wallet_id), tree_state),
        call_ensures(get_bundle_count, (tables, round_id, wallet_id), count),
    ensures
        ({
            let round = RoundKey { round_id: round_id@, wallet_id: wallet_id@ };
            let key = BundleKey { round, bundle_index: bundle_index as i64 };
            &&& tx_hash is Ok <==> tables@.bundles.contains_key(key)
            &&& tx_hash matches Ok(found) ==> {
                let stored = tables@.bundles[key].delegation_tx_hash;
                &&& found is Some <==> stored is Some
                &&& found matches Some(text) ==> Some(text@) == stored
            }
            &&& tree_state is Ok <==> tables@.tree_states.contains_key(round)
            &&& tree_state matches Ok(bytes) ==> bytes@ == tables@.tree_states[round].tree_state
            &&& count == Ok::<u32, VotingError>(
                tables@.bundles.dom().filter(
                    |bundle: BundleKey| bundle.round == round,
                ).len() as u32,
            )
        }),
{
    let round = RoundKey { round_id: round_id@, wallet_id: wallet_id@ };
    assert(bundles_of(tables@, round) =~= tables@.bundles.dom().filter(
        |bundle: BundleKey| bundle.round == round,
    ));
}

/// Each Keystone signature of a round is listed once, by bundle, as it is
/// stored.
pub proof fn law_stored_signatures_are_listed(
    tables: &VotingTables,
    round_id: &str,
    wallet_id: &str,
    listed: Result<Vec<KeystoneSignatureRecord>, VotingError>,
)
    requires
        call_ensures(get_keystone_signatures, (tables, round_id, wallet_id), listed),
    ensures
        listed is Ok,
        exists|keys: Seq<BundleKey>|
            {
                &&& #[trigger] keys.no_duplicates()
                &&& keys.len() == listed->Ok_0@.len()
                &&& forall|key: BundleKey| #[trigger]
                    keys.contains(key) <==> tables@.keystone_signatures.contains_key(key)
                        && key.round == (RoundKey { round_id: round_id@, wallet_id: wallet_id@ })
                &&& forall|i: int|
                    0 <= i < keys.len() ==> {
                        let record = #[trigger] listed->Ok_0.model()[i];
                        let stored = tables@.keystone_signatures[keys[i]];
                        &&& record.bundle_index == keys[i].bundle_index as u32
                        &&& record.sig == stored.sig
                        &&& record.sighash == stored.sighash
                        &&& record.rk == stored.rk
                    }
            },
{
    let round = RoundKey { round_id: round_id@, wallet_id: wallet_id@ };
    let keys = choose|keys: Seq<BundleKey>| #[trigger]
        lists_signatures(keys, tables@, round_key(round_id@, wallet_id@)) && answers(
            listed,
            Ok(
                keys.map_values(
                    |key: BundleKey| signature_record(key, tables@.keystone_signatures[key]),
                ),
            ),
        );
    assert forall|key: BundleKey| #[trigger] keys.contains(key) <==> (
    tables@.keystone_signatures.contains_key(key) && key.round == round) by {
        assert(keys.contains(key) <==> keys.to_set().contains(key));
    }
    let records = listed->Ok_0.model();
    assert(records.len() == listed->Ok_0@.len());
    assert forall|i: int| 0 <= i < keys.len() implies #[trigger] records[i] == signature_record(
        keys[i],
        tables@.keystone_signatures[keys[i]],
    ) by {}
    assert(keys.no_duplicates());
}

/// The readers of a bundle answer by its columns.
pub proof fn law_bundle_readers_answer(
    tables: &VotingTables,
    round_id: &str,
    wallet_id: &str,
    bundle_index: u32,
    notes: &[NoteInfo],
    nullifier: &[u8],
    expected_root: &[u8],
    valid: Result<(), VotingError>,
    positions: Result<Vec<u64>, VotingError>,
    required: Result<(), VotingError>,
    van_position: Result<u32, VotingError>,
    submission: Result<DelegationDbFields, VotingError>,
    imt_proof: Result<Option<ImtProofData>, VotingError>,
    inputs: Result<Zkp2DelegationData, VotingError>,
    fit: bool,
)
    requires
        call_ensures(
            load_bundle_note_positions,
            (tables, round_id, wallet_id, bundle_index),
            positions,
        ),
        call_ensures(
            require_bundle_notes,
            (tables, round_id, wallet_id, bundle_index, notes),
            required,
        ),
        call_ensures(load_van_position, (tables, round_id, wallet_id, bundle_index), van_position),
        call_ensures(
            load_delegation_submission_data,
            (tables, round_id, wallet_id, bundle_index, valid),
            submission,
        ),
        call_ensures(
            load_imt_proof,
            (tables, round_id, wallet_id, bundle_index, nullifier, expected_root),
            imt_proof,
        ),
        call_ensures(load_zkp2_inputs, (tables, round_id, wallet_id, bundle_index), inputs),
        call_ensures(proposals_fit, (tables, round_id, wallet_id, bundle_index), fit),
    ensures
        ({
            let bundle = BundleKey {
                round: RoundKey { round_id: round_id@, wallet_id: wallet_id@ },
                bundle_index: bundle_index as i64,
            };
            &&& answers(
                positions,
                note_positions_outcome(tables@, round_id@, wallet_id@, bundle_index),
            )
            &&& answers(
                required,
                require_notes_outcome(
                    tables@,
                    round_id@,
                    wallet_id@,
                    bundle_index,
                    notes_of(notes@),
                ),
            )
            &&& answers(
                van_position,
                van_position_outcome(tables@, round_id@, wallet_id@, bundle_index),
            )
            &&& match (submission_outcome(tables@, round_id@, wallet_id@, bundle_index), valid) {
                (Ok(fields), Ok(())) => submission matches Ok(loaded) && loaded.model() == fields,
                (Ok(_), Err(error)) => submission matches Err(given) && given@ == error@,
                (Err(fault), _) => submission matches Err(given) && given@ == fault,
            }
            &&& answers(
                imt_proof,
                imt_proof_outcome(
                    tables@,
                    (ImtKey { bundle, nullifier: nullifier@ }),
                    expected_root@,
                ),
            )
            &&& answers(inputs, zkp2_outcome(tables@, round_id@, wallet_id@, bundle_index))
            &&& fit == submitted_proposals_fit(tables@, bundle)
        }),
{
}

/// The readers of votes, of what the voter decided and of rounds that wait for
/// confirmation answer by the columns.
pub proof fn law_vote_readers_answer(
    tables: &VotingTables,
    round_id: &str,
    wallet_id: &str,
    bundle_index: u32,
    proposal_id: u32,
    skipped: bool,
    choice: Option<u32>,
    commitment: Result<Option<(String, u64)>, VotingError>,
    voted: Option<i64>,
    intent: Option<(i64, Option<i64>)>,
    agrees: Result<(), VotingError>,
    imported: bool,
    confirmed: Result<(), VotingError>,
)
    requires
        call_ensures(
            get_commitment_bundle,
            (tables, round_id, wallet_id, bundle_index, proposal_id),
            commitment,
        ),
        call_ensures(
            load_vote_choice_for_intent_check,
            (tables, round_id, wallet_id, bundle_index, proposal_id),
            voted,
        ),
        call_ensures(load_ballot_intent, (tables, round_id, wallet_id, proposal_id), intent),
        call_ensures(
            ensure_no_submitted_vote_conflict_for_intent,
            (tables, round_id, wallet_id, proposal_id, skipped, choice),
            agrees,
        ),
        call_ensures(
            round_has_imported_capability_bundles,
            (tables, round_id, wallet_id),
            imported,
        ),
        call_ensures(
            require_capability_delegations_confirmed,
            (tables, round_id, wallet_id),
            confirmed,
        ),
    ensures
        ({
            let round = RoundKey { round_id: round_id@, wallet_id: wallet_id@ };
            let key = VoteKey {
                bundle: BundleKey { round, bundle_index: bundle_index as i64 },
                proposal_id: proposal_id as i64,
            };
            let decided = IntentKey { round, proposal_id: proposal_id as i64 };
            &&& answers(commitment, commitment_bundle_outcome(tables@, key))
            &&& voted is Some <==> tables@.votes.contains_key(key)
            &&& voted matches Some(choice) ==> choice == tables@.votes[key].choice
            &&& intent is Some <==> tables@.ballot_intents.contains_key(decided)
            &&& intent matches Some((skipped, choice)) ==> skipped
                == tables@.ballot_intents[decided].skipped && choice
                == tables@.ballot_intents[decided].choice
            &&& answers(
                agrees,
                intent_conflict_outcome(
                    tables@,
                    round_id@,
                    wallet_id@,
                    proposal_id,
                    skipped,
                    choice,
                ),
            )
            &&& imported <==> exists|bundle: BundleKey| #[trigger]
                tables@.bundles.contains_key(bundle) && bundle.round == round
                    && tables@.bundles[bundle].note_positions_blob is None
            &&& answers(confirmed, capability_confirmed_outcome(tables@, round_id@, wallet_id@))
        }),
{
}

} // verus!
