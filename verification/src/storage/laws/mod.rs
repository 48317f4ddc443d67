//! What holds of every operation on voting state.

use vstd::prelude::*;

pub mod bundles;
pub mod calls;
pub mod changes;
pub mod reads;
pub mod refusals;
pub mod requests;
pub mod rounds;
pub mod sessions;
pub mod shares;
pub mod values;
pub mod votes;

use crate::storage::field::ImtProofModel;
use crate::storage::queries::bundles::{
    delete_bundles_outcome, insert_bundle_outcome, new_bundle, store_van_position_outcome,
};
use crate::storage::queries::confirmations::store_tx_hash_outcome;
use crate::storage::queries::delegation::{
    store_delegation_outcome, store_proof_fields_outcome, store_secrets_outcome, DelegationSetup,
    ProofFields,
};
use crate::storage::queries::proofs::{
    store_imt_proof_outcome, store_proof_outcome, store_tree_state_outcome,
};
use crate::storage::queries::recovery::{
    recovery_cleared, store_keystone_outcome, unsigned_setup_cleared,
};
use crate::storage::queries::rounds::{
    advance_round_phase_outcome, all_delegated, insert_round_outcome, is_delegated,
    round_params_outcome, round_state_outcome, update_round_phase_outcome, without_round,
};
use crate::storage::queries::shares::{
    add_servers_outcome, mark_confirmed_outcome, record_share_outcome,
};
use crate::storage::queries::votes::{
    clear_stale_outcome, lists_votes, record_submission_outcome, store_vote_outcome,
};
use crate::storage::queries::witnesses::{
    replace_witnesses_outcome, store_witnesses_outcome, witness_key, witness_keys, with_witnesses,
};
use crate::storage::rows::{
    bundle_key, round_key, BundleKey, RoundKey, VoteKey, WitnessColumns, WitnessKey,
};
use crate::storage::tables::{intact, of_wallet, Tables};
use crate::storage::RoundPhase;
use crate::types::{Bytes, Fault, Network, RoundParamsModel, Text, VotingError, WitnessModel};

verus! {

/// What an operation does to a round of a wallet.
pub enum Change {
    InsertRound { network: Network, params: RoundParamsModel, session_json: Option<Text>, now: i64 },
    SetPhase { phase: RoundPhase },
    AdvancePhase { phase: RoundPhase },
    ClearRound,
    InsertBundle { bundle_index: u32, positions: Bytes, identities: Option<Bytes> },
    DeleteBundles { from_index: u32 },
    StoreVanPosition { bundle_index: u32, position: u32 },
    StoreDelegation { bundle_index: u32, setup: DelegationSetup, effects_valid: Result<(), VotingError> },
    StoreSecrets { bundle_index: u32, secrets: Seq<(Bytes, Bytes)> },
    StoreProofFields { bundle_index: u32, fields: ProofFields },
    StoreTxHash { bundle_index: u32, tx_hash: Text },
    StoreTreeState { snapshot_height: u64, tree_state: Bytes },
    StoreWitnesses { bundle_index: u32, witnesses: Seq<WitnessModel>, now: i64 },
    ReplaceWitnesses { bundle_index: u32, witnesses: Seq<WitnessModel>, now: i64 },
    StoreImtProof { bundle_index: u32, nullifier: Bytes, proof: ImtProofModel, now: i64 },
    StoreProof { bundle_index: u32, proof: Bytes, now: i64 },
    StoreVote { bundle_index: u32, proposal_id: u32, choice: u32, commitment: Bytes, now: i64 },
    RecordSubmission { bundle_index: u32, proposal_id: u32, tx_hash: Text },
    ClearStaleShares { proposal_id: u32, skipped: bool, choice: Option<u32> },
    RecordShare { bundle_index: u32, proposal_id: u32, share_index: u32, sent_to_urls: Seq<Text>, nullifier: Bytes, submit_at: u64, now: u64 },
    MarkShareConfirmed { bundle_index: u32, proposal_id: u32, share_index: u32 },
    AddServers { bundle_index: u32, proposal_id: u32, share_index: u32, new_urls: Seq<Text> },
    StoreKeystone { bundle_index: u32, sig: Bytes, sighash: Bytes, rk: Bytes, now: u64 },
    ClearUnsignedSetup,
    ClearRecovery,
}

/// An operation on a round of a wallet.
pub struct Request {
    pub round_id: Text,
    pub wallet_id: Text,
    pub change: Change,
}

impl Request {
    /// The round that the operation is on.
    pub open spec fn round(self) -> RoundKey {
        round_key(self.round_id, self.wallet_id)
    }
}

/// The state of an outcome with a value.
pub open spec fn state_of<T>(outcome: Result<(Tables, T), Fault>) -> Result<Tables, Fault> {
    match outcome {
        Ok((tables, _)) => Ok(tables),
        Err(fault) => Err(fault),
    }
}

/// The outcome of an operation.
pub open spec fn outcome(t: Tables, request: Request) -> Result<Tables, Fault> {
    let r = request.round_id;
    let w = request.wallet_id;
    match request.change {
        Change::InsertRound { network, params, session_json, now } => insert_round_outcome(
            t,
            w,
            network,
            RoundParamsModel { vote_round_id: r, ..params },
            session_json,
            now,
        ),
        Change::SetPhase { phase } => update_round_phase_outcome(t, r, w, phase),
        Change::AdvancePhase { phase } => advance_round_phase_outcome(t, r, w, phase),
        Change::ClearRound => Ok(without_round(t, round_key(r, w))),
        Change::InsertBundle { bundle_index, positions, identities } => insert_bundle_outcome(
            t,
            r,
            w,
            bundle_index,
            new_bundle(positions, identities),
        ),
        Change::DeleteBundles { from_index } => state_of(delete_bundles_outcome(t, r, w, from_index)),
        Change::StoreVanPosition { bundle_index, position } => store_van_position_outcome(t, r, w, bundle_index, position),
        Change::StoreDelegation { bundle_index, setup, effects_valid } => store_delegation_outcome(
            t,
            r,
            w,
            bundle_index,
            setup,
            effects_valid,
        ),
        Change::StoreSecrets { bundle_index, secrets } => store_secrets_outcome(t, r, w, bundle_index, secrets),
        Change::StoreProofFields { bundle_index, fields } => store_proof_fields_outcome(t, r, w, bundle_index, fields),
        Change::StoreTxHash { bundle_index, tx_hash } => store_tx_hash_outcome(t, r, w, bundle_index, tx_hash),
        Change::StoreTreeState { snapshot_height, tree_state } => store_tree_state_outcome(
            t,
            r,
            w,
            snapshot_height,
            tree_state,
        ),
        Change::StoreWitnesses { bundle_index, witnesses, now } => store_witnesses_outcome(
            t,
            r,
            w,
            bundle_index,
            witnesses,
            now,
        ),
        Change::ReplaceWitnesses { bundle_index, witnesses, now } => replace_witnesses_outcome(
            t,
            r,
            w,
            bundle_index,
            witnesses,
            now,
        ),
        Change::StoreImtProof { bundle_index, nullifier, proof, now } => store_imt_proof_outcome(
            t,
            r,
            w,
            bundle_index,
            nullifier,
            proof,
            now,
        ),
        Change::StoreProof { bundle_index, proof, now } => store_proof_outcome(t, r, w, bundle_index, proof, now),
        Change::StoreVote { bundle_index, proposal_id, choice, commitment, now } => store_vote_outcome(
            t,
            r,
            w,
            bundle_index,
            proposal_id,
            choice,
            commitment,
            now,
        ),
        Change::RecordSubmission { bundle_index, proposal_id, tx_hash } => record_submission_outcome(
            t,
            r,
            w,
            bundle_index,
            proposal_id,
            tx_hash,
        ),
        Change::ClearStaleShares { proposal_id, skipped, choice } => state_of(
            clear_stale_outcome(t, r, w, proposal_id, skipped, choice),
        ),
        Change::RecordShare { bundle_index, proposal_id, share_index, sent_to_urls, nullifier, submit_at, now } => record_share_outcome(
            t,
            r,
            w,
            bundle_index,
            proposal_id,
            share_index,
            sent_to_urls,
            nullifier,
            submit_at,
            now,
        ),
        Change::MarkShareConfirmed { bundle_index, proposal_id, share_index } => mark_confirmed_outcome(
            t,
            r,
            w,
            bundle_index,
            proposal_id,
            share_index,
        ),
        Change::AddServers { bundle_index, proposal_id, share_index, new_urls } => add_servers_outcome(
            t,
            r,
            w,
            bundle_index,
            proposal_id,
            share_index,
            new_urls,
        ),
        Change::StoreKeystone { bundle_index, sig, sighash, rk, now } => store_keystone_outcome(
            t,
            r,
            w,
            bundle_index,
            sig,
            sighash,
            rk,
            now,
        ),
        Change::ClearUnsignedSetup => Ok(unsigned_setup_cleared(t, round_key(r, w))),
        Change::ClearRecovery => Ok(recovery_cleared(t, round_key(r, w))),
    }
}

/// Storing witnesses of a bundle leaves those of other bundles as they are.
proof fn lemma_witnesses_outside(
    stored: Map<WitnessKey, WitnessColumns>,
    bundle: BundleKey,
    witnesses: Seq<WitnessModel>,
    now: i64,
)
    ensures
        ({
            let all = with_witnesses(stored, bundle, witnesses, now);
            forall|key: WitnessKey|
                key.bundle != bundle ==> (#[trigger] all.contains_key(key) == stored.contains_key(
                    key,
                )) && all[key] == stored[key]
        }),
    decreases witnesses.len(),
{
    let all = with_witnesses(stored, bundle, witnesses, now);
    if witnesses.len() > 0 {
        lemma_witnesses_outside(stored, bundle, witnesses.drop_last(), now);
        let front = with_witnesses(stored, bundle, witnesses.drop_last(), now);
        let last = witness_key(bundle, witnesses.last());
        assert forall|key: WitnessKey| key.bundle != bundle implies (#[trigger] all.contains_key(
            key,
        ) == stored.contains_key(key)) && all[key] == stored[key] by {
            assert(last.bundle == bundle);
            assert(front.contains_key(key) == stored.contains_key(key));
        }
    }
}

/// An operation on a round leaves all rows of other rounds as they are.
#[verifier::rlimit(60)]
pub proof fn law_other_rounds_unchanged(tables: Tables, request: Request)
    requires
        outcome(tables, request) is Ok,
    ensures
        without_round(outcome(tables, request)->Ok_0, request.round()) == without_round(
            tables,
            request.round(),
        ),
{
    let next = outcome(tables, request)->Ok_0;
    let round = request.round();
    let before = without_round(tables, round);
    let after = without_round(next, round);
    match request.change {
        Change::StoreWitnesses { bundle_index, witnesses, now } => {
            lemma_witnesses_outside(
                tables.witnesses,
                bundle_key(
                    request.round_id,
                    request.wallet_id,
                    bundle_index as int,
                ),
                witnesses,
                now,
            );
        },
        Change::ReplaceWitnesses { bundle_index, witnesses, now } => {
            let bundle = bundle_key(
                request.round_id,
                request.wallet_id,
                bundle_index as int,
            );
            lemma_witnesses_outside(
                tables.witnesses.remove_keys(witness_keys(tables, bundle)),
                bundle,
                witnesses,
                now,
            );
        },
        _ => {},
    }
    assert(after.rounds =~= before.rounds);
    assert(after.tree_states =~= before.tree_states);
    assert(after.ballot_intents =~= before.ballot_intents);
    assert(after.bundles =~= before.bundles);
    assert(after.proofs =~= before.proofs);
    assert(after.keystone_signatures =~= before.keystone_signatures);
    assert(after.witnesses =~= before.witnesses);
    assert(after.imt_proofs =~= before.imt_proofs);
    assert(after.votes =~= before.votes);
    assert(after.share_delegations =~= before.share_delegations);
}

/// An operation for a wallet leaves all rows of other wallets as they are.
pub proof fn law_other_wallets_unchanged(tables: Tables, request: Request, wallet_id: Text)
    requires
        outcome(tables, request) is Ok,
        wallet_id != request.wallet_id,
    ensures
        of_wallet(outcome(tables, request)->Ok_0, wallet_id) == of_wallet(tables, wallet_id),
{
    law_other_rounds_unchanged(tables, request);
    lemma_wallet_outside_round(tables, request.round(), wallet_id);
    lemma_wallet_outside_round(outcome(tables, request)->Ok_0, request.round(), wallet_id);
}

proof fn lemma_same_outside<K, V>(a: Map<K, V>, b: Map<K, V>, inside: Set<K>, key: K)
    requires
        a.remove_keys(inside) == b.remove_keys(inside),
        !inside.contains(key),
    ensures
        a.contains_key(key) == b.contains_key(key),
        a.contains_key(key) ==> a[key] == b[key],
{
    assert(a.contains_key(key) == a.remove_keys(inside).contains_key(key));
    assert(b.contains_key(key) == b.remove_keys(inside).contains_key(key));
    if a.contains_key(key) {
        assert(a[key] == a.remove_keys(inside)[key]);
        assert(b[key] == b.remove_keys(inside)[key]);
    }
}

/// What a wallet reads of its rounds and votes does not change when an
/// operation for another wallet runs.
pub proof fn law_reads_are_isolated(
    tables: Tables,
    request: Request,
    round_id: Text,
    wallet_id: Text,
    keys: Seq<VoteKey>,
)
    requires
        outcome(tables, request) is Ok,
        wallet_id != request.wallet_id,
    ensures
        ({
            let next = outcome(tables, request)->Ok_0;
            let round = round_key(round_id, wallet_id);
            &&& round_state_outcome(next, round_id, wallet_id) == round_state_outcome(
                tables,
                round_id,
                wallet_id,
            )
            &&& round_params_outcome(next, round_id, wallet_id) == round_params_outcome(
                tables,
                round_id,
                wallet_id,
            )
            &&& lists_votes(keys, next, round) == lists_votes(keys, tables, round)
            &&& forall|key: VoteKey|
                key.bundle.round == round && #[trigger] tables.votes.contains_key(key)
                    ==> next.votes[key] == tables.votes[key]
        }),
{
    law_other_rounds_unchanged(tables, request);
    let next = outcome(tables, request)->Ok_0;
    let round = round_key(round_id, wallet_id);
    let other = request.round();
    let of_bundle = Set::new(|key: BundleKey| key.round == other);
    let of_vote = Set::new(|key: VoteKey| key.bundle.round == other);
    let of_round = Set::<RoundKey>::empty().insert(other);
    assert(tables.rounds.remove_keys(of_round) =~= tables.rounds.remove(other));
    assert(next.rounds.remove_keys(of_round) =~= next.rounds.remove(other));
    lemma_same_outside(tables.rounds, next.rounds, of_round, round);
    assert forall|key: BundleKey| key.round == round implies (#[trigger] tables.bundles.contains_key(
        key,
    ) == next.bundles.contains_key(key)) && (tables.bundles.contains_key(key)
        ==> tables.bundles[key] == next.bundles[key]) by {
        lemma_same_outside(tables.bundles, next.bundles, of_bundle, key);
    }
    assert forall|key: BundleKey| key.round == round implies (#[trigger] tables.proofs.contains_key(
        key,
    ) == next.proofs.contains_key(key)) && (tables.proofs.contains_key(key) ==> tables.proofs[key]
        == next.proofs[key]) by {
        lemma_same_outside(tables.proofs, next.proofs, of_bundle, key);
    }
    assert forall|key: VoteKey| key.bundle.round == round implies (
    #[trigger] tables.votes.contains_key(key) == next.votes.contains_key(key)) && (
    tables.votes.contains_key(key) ==> tables.votes[key] == next.votes[key]) by {
        lemma_same_outside(tables.votes, next.votes, of_vote, key);
    }
    assert(all_delegated(next, round) == all_delegated(tables, round)) by {
        if all_delegated(tables, round) {
            let key = choose|key: BundleKey| #[trigger]
                tables.bundles.contains_key(key) && key.round == round;
            assert(next.bundles.contains_key(key));
            assert forall|key: BundleKey| #[trigger]
                next.bundles.contains_key(key) && key.round == round implies is_delegated(
                next.proofs,
                key,
                next.bundles[key],
            ) by {
                assert(tables.bundles.contains_key(key));
                assert(tables.proofs.contains_key(key) == next.proofs.contains_key(key));
            }
        }
        if all_delegated(next, round) {
            let key = choose|key: BundleKey| #[trigger]
                next.bundles.contains_key(key) && key.round == round;
            assert(tables.bundles.contains_key(key));
            assert forall|key: BundleKey| #[trigger]
                tables.bundles.contains_key(key) && key.round == round implies is_delegated(
                tables.proofs,
                key,
                tables.bundles[key],
            ) by {
                assert(next.bundles.contains_key(key));
                assert(tables.proofs.contains_key(key) == next.proofs.contains_key(key));
            }
        }
    }
    assert(next.votes.dom().filter(|key: VoteKey| key.bundle.round == round)
        =~= tables.votes.dom().filter(|key: VoteKey| key.bundle.round == round));
}

/// A wallet has no rows in the round of another one.
proof fn lemma_wallet_outside_round(tables: Tables, round: RoundKey, wallet_id: Text)
    requires
        round.wallet_id != wallet_id,
    ensures
        of_wallet(without_round(tables, round), wallet_id) == of_wallet(tables, wallet_id),
{
    let a = of_wallet(without_round(tables, round), wallet_id);
    let b = of_wallet(tables, wallet_id);
    assert(a.rounds =~= b.rounds);
    assert(a.tree_states =~= b.tree_states);
    assert(a.ballot_intents =~= b.ballot_intents);
    assert(a.bundles =~= b.bundles);
    assert(a.proofs =~= b.proofs);
    assert(a.keystone_signatures =~= b.keystone_signatures);
    assert(a.witnesses =~= b.witnesses);
    assert(a.imt_proofs =~= b.imt_proofs);
    assert(a.votes =~= b.votes);
    assert(a.share_delegations =~= b.share_delegations);
}

/// Storing witnesses of a bundle gives witnesses to this bundle only.
proof fn lemma_witnesses_inside(
    stored: Map<WitnessKey, WitnessColumns>,
    bundle: BundleKey,
    witnesses: Seq<WitnessModel>,
    now: i64,
)
    ensures
        ({
            let all = with_witnesses(stored, bundle, witnesses, now);
            forall|key: WitnessKey| #[trigger]
                all.contains_key(key) ==> stored.contains_key(key) || (key.bundle == bundle
                    && witnesses.len() > 0)
        }),
    decreases witnesses.len(),
{
    let all = with_witnesses(stored, bundle, witnesses, now);
    if witnesses.len() > 0 {
        lemma_witnesses_inside(stored, bundle, witnesses.drop_last(), now);
        let front = with_witnesses(stored, bundle, witnesses.drop_last(), now);
        assert forall|key: WitnessKey| #[trigger] all.contains_key(key) implies stored.contains_key(
            key,
        ) || (key.bundle == bundle && witnesses.len() > 0) by {
            assert(key == witness_key(bundle, witnesses.last()) || front.contains_key(key));
        }
    }
}

/// Every operation keeps each row with its parent.
#[verifier::rlimit(60)]
pub proof fn law_stays_intact(tables: Tables, request: Request)
    requires
        intact(tables),
        outcome(tables, request) is Ok,
    ensures
        intact(outcome(tables, request)->Ok_0),
{
    match request.change {
        Change::StoreWitnesses { bundle_index, witnesses, now } => {
            lemma_witnesses_inside(
                tables.witnesses,
                bundle_key(request.round_id, request.wallet_id, bundle_index as int),
                witnesses,
                now,
            );
        },
        Change::ReplaceWitnesses { bundle_index, witnesses, now } => {
            let bundle = bundle_key(request.round_id, request.wallet_id, bundle_index as int);
            lemma_witnesses_inside(
                tables.witnesses.remove_keys(witness_keys(tables, bundle)),
                bundle,
                witnesses,
                now,
            );
        },
        _ => {},
    }
}

/// A round keeps its place or moves forward, whatever is done to it but
/// setting its phase outright or clearing it.
pub proof fn law_phases_move_forward(tables: Tables, request: Request, key: RoundKey)
    requires
        outcome(tables, request) is Ok,
        !(request.change is SetPhase),
        !(request.change is ClearRound),
        tables.rounds.contains_key(key),
    ensures
        outcome(tables, request)->Ok_0.rounds.contains_key(key),
        outcome(tables, request)->Ok_0.rounds[key].phase >= tables.rounds[key].phase,
{
}

/// A submitted vote stays as it is, whatever is done, until its round or its
/// bundle is deleted or the recovery state of its round is cleared.
pub proof fn law_submitted_votes_kept(tables: Tables, request: Request, key: VoteKey)
    requires
        outcome(tables, request) is Ok,
        !(request.change is ClearRound),
        !(request.change is DeleteBundles),
        !(request.change is ClearRecovery),
        tables.votes.contains_key(key),
        tables.votes[key].tx_hash is Some,
    ensures
        outcome(tables, request)->Ok_0.votes.contains_key(key),
        outcome(tables, request)->Ok_0.votes[key] == tables.votes[key],
{
}

/// Once a bundle has padding secrets, a sighash or TX1 effects, they stay,
/// whatever is done, until its round or itself is deleted or its unsigned setup
/// is cleared.
pub proof fn law_setup_is_kept(tables: Tables, request: Request, key: BundleKey)
    requires
        outcome(tables, request) is Ok,
        !(request.change is ClearRound),
        !(request.change is DeleteBundles),
        !(request.change is ClearUnsignedSetup),
        tables.bundles.contains_key(key),
    ensures
        ({
            let before = tables.bundles[key];
            let after = outcome(tables, request)->Ok_0.bundles[key];
            &&& outcome(tables, request)->Ok_0.bundles.contains_key(key)
            &&& before.padded_note_secrets is Some ==> after.padded_note_secrets
                == before.padded_note_secrets
            &&& before.pczt_sighash is Some ==> after.pczt_sighash == before.pczt_sighash
            &&& before.tx1_effects is Some ==> after.tx1_effects == before.tx1_effects
        }),
{
}

/// The notes of a bundle are fixed when it is stored: no operation changes
/// them.
pub proof fn law_bundle_notes_fixed(tables: Tables, request: Request, key: BundleKey)
    requires
        outcome(tables, request) is Ok,
        tables.bundles.contains_key(key),
        outcome(tables, request)->Ok_0.bundles.contains_key(key),
    ensures
        outcome(tables, request)->Ok_0.bundles[key].note_positions_blob
            == tables.bundles[key].note_positions_blob,
        outcome(tables, request)->Ok_0.bundles[key].note_identity_hashes_blob
            == tables.bundles[key].note_identity_hashes_blob,
{
}

} // verus!
