//! Laws of bundles and their delegations.

use vstd::prelude::*;

use crate::bytes::{joined, lemma_split_after_join};
use crate::storage::field::{is_canonical, law_fields_round_trip, ImtProofModel};
use crate::storage::notes::{
    identities_of, law_positions_round_trip, law_secrets_round_trip, positions_blob, positions_of,
};
use crate::storage::queries::bundles::{
    bytes_or_empty, insert_bundle_outcome, new_bundle, note_positions_outcome,
    require_notes_outcome, store_van_position_outcome, van_position_outcome,
};
use crate::storage::queries::confirmations::{store_tx_hash_outcome, tx_hash_outcome, zkp2_outcome};
use crate::storage::queries::delegation::{
    column_outcome, secrets_outcome, store_delegation_outcome, store_proof_fields_outcome,
    store_secrets_outcome, stored_words, submission_outcome, words_outcome, DelegationSetup,
    ProofFields, SubmissionModel,
};
use crate::storage::queries::proofs::{
    imt_key, imt_proof_outcome, store_imt_proof_outcome, store_proof_outcome,
};
use crate::storage::queries::recovery::{
    recovery_cleared, signature_record, store_keystone_outcome,
    unsigned_setup_cleared,
};
use crate::storage::queries::rounds::{is_delegated, is_proven};
use crate::storage::queries::witnesses::{
    ascending, replace_witnesses_outcome, store_witnesses_outcome, stored_witness, witness_columns,
    witness_key, witness_keys, witness_positions, with_witnesses,
};
use crate::storage::rows::{
    bundle_key, round_key, BundleColumns, BundleKey, RoundKey, ShareKey, VoteKey, WitnessColumns,
    WitnessKey,
};
use crate::storage::tables::Tables;
use crate::types::{Bytes, Fault, KeystoneModel, NoteModel, Text, VotingError, WitnessModel};

verus! {

/// The note positions of a bundle are read back as they were stored.
pub proof fn law_bundle_positions_read_back(
    tables: Tables,
    round_id: Text,
    wallet_id: Text,
    bundle_index: u32,
    positions: Seq<u64>,
    identities: Option<Bytes>,
)
    requires
        insert_bundle_outcome(
            tables,
            round_id,
            wallet_id,
            bundle_index,
            new_bundle(positions_blob(positions), identities),
        ) is Ok,
    ensures
        note_positions_outcome(
            insert_bundle_outcome(
                tables,
                round_id,
                wallet_id,
                bundle_index,
                new_bundle(positions_blob(positions), identities),
            )->Ok_0,
            round_id,
            wallet_id,
            bundle_index,
        ) == Ok::<Seq<u64>, Fault>(positions),
{
    law_positions_round_trip(positions);
}

/// A bundle that was stored with notes accepts notes at the same positions and
/// with the same identities, and no others. The notes it was stored with are
/// among those.
pub proof fn law_bundle_accepts_its_notes(
    tables: Tables,
    round_id: Text,
    wallet_id: Text,
    bundle_index: u32,
    notes: Seq<NoteModel>,
    requested: Seq<NoteModel>,
)
    requires
        insert_bundle_outcome(
            tables,
            round_id,
            wallet_id,
            bundle_index,
            new_bundle(positions_blob(positions_of(notes)), Some(joined(identities_of(notes)))),
        ) is Ok,
    ensures
        ({
            let next = insert_bundle_outcome(
                tables,
                round_id,
                wallet_id,
                bundle_index,
                new_bundle(positions_blob(positions_of(notes)), Some(joined(identities_of(notes)))),
            )->Ok_0;
            &&& require_notes_outcome(next, round_id, wallet_id, bundle_index, requested) is Ok
                <==> positions_of(requested) == positions_of(notes) && identities_of(requested)
                == identities_of(notes)
            &&& require_notes_outcome(next, round_id, wallet_id, bundle_index, notes) is Ok
        }),
{
    law_positions_round_trip(positions_of(notes));
    lemma_split_after_join(identities_of(notes), 32);
}

/// A bundle that was stored with positions only accepts all notes at these
/// positions.
pub proof fn law_positions_suffice_without_identities(
    tables: Tables,
    round_id: Text,
    wallet_id: Text,
    bundle_index: u32,
    positions: Seq<u64>,
    requested: Seq<NoteModel>,
)
    requires
        insert_bundle_outcome(
            tables,
            round_id,
            wallet_id,
            bundle_index,
            new_bundle(positions_blob(positions), None),
        ) is Ok,
    ensures
        require_notes_outcome(
            insert_bundle_outcome(
                tables,
                round_id,
                wallet_id,
                bundle_index,
                new_bundle(positions_blob(positions), None),
            )->Ok_0,
            round_id,
            wallet_id,
            bundle_index,
            requested,
        ) is Ok <==> positions_of(requested) == positions,
{
    law_positions_round_trip(positions);
}

/// The VAN leaf position that was stored last is the one that is loaded.
pub proof fn law_van_position_read_back(
    tables: Tables,
    round_id: Text,
    wallet_id: Text,
    bundle_index: u32,
    position: u32,
)
    requires
        store_van_position_outcome(tables, round_id, wallet_id, bundle_index, position) is Ok,
    ensures
        van_position_outcome(
            store_van_position_outcome(
                tables,
                round_id,
                wallet_id,
                bundle_index,
                position,
            )->Ok_0,
            round_id,
            wallet_id,
            bundle_index,
        ) == Ok::<u32, Fault>(position),
{
}

/// A recorded delegation transaction is read back, recording it again changes
/// nothing, and another one is refused.
pub proof fn law_delegation_tx_hash_is_final(
    tables: Tables,
    round_id: Text,
    wallet_id: Text,
    bundle_index: u32,
    tx_hash: Text,
    other: Text,
)
    requires
        other != tx_hash,
        store_tx_hash_outcome(tables, round_id, wallet_id, bundle_index, tx_hash) is Ok,
    ensures
        ({
            let next = store_tx_hash_outcome(
                tables,
                round_id,
                wallet_id,
                bundle_index,
                tx_hash,
            )->Ok_0;
            &&& tx_hash_outcome(next, bundle_key(round_id, wallet_id, bundle_index as int)) == Ok::<
                Option<Text>,
                Fault,
            >(Some(tx_hash))
            &&& store_tx_hash_outcome(next, round_id, wallet_id, bundle_index, tx_hash) == Ok::<
                Tables,
                Fault,
            >(next)
            &&& store_tx_hash_outcome(next, round_id, wallet_id, bundle_index, other) matches Err(
                Fault::InvalidInput(_),
            )
        }),
{
    let next = store_tx_hash_outcome(tables, round_id, wallet_id, bundle_index, tx_hash)->Ok_0;
    let again = store_tx_hash_outcome(next, round_id, wallet_id, bundle_index, tx_hash)->Ok_0;
    assert(again.bundles =~= next.bundles);
}

/// What the setup of a delegation stored is read back: the plain columns, and
/// the lists if their entries are 32 bytes long. What it was not given is read
/// as it was before. The public inputs are read as part of what is submitted
/// for a proven bundle, and the value and the address as part of what the proof
/// of a vote needs.
pub proof fn law_delegation_read_back(
    tables: Tables,
    round_id: Text,
    wallet_id: Text,
    bundle_index: u32,
    setup: DelegationSetup,
)
    requires
        store_delegation_outcome(
            tables,
            round_id,
            wallet_id,
            bundle_index,
            setup,
            Ok(()),
        ) is Ok,
    ensures
        ({
            let t = store_delegation_outcome(
                tables,
                round_id,
                wallet_id,
                bundle_index,
                setup,
                Ok(()),
            )->Ok_0;
            let key = bundle_key(round_id, wallet_id, bundle_index as int);
            let words = |list: Seq<Bytes>|
                forall|i: int| 0 <= i < list.len() ==> (#[trigger] list[i]).len() == 32;
            let read = |what: Text, column: spec_fn(BundleColumns) -> Option<Bytes>|
                column_outcome(t, what, round_id, wallet_id, bundle_index, column);
            &&& read("no van_comm_rand for"@, |b: BundleColumns| b.van_comm_rand) == Ok::<
                Bytes,
                Fault,
            >(setup.van_comm_rand)
            &&& read("no rho_signed for"@, |b: BundleColumns| b.rho_signed) == Ok::<Bytes, Fault>(
                setup.rho_signed,
            )
            &&& read("no nf_signed for"@, |b: BundleColumns| b.nf_signed) == Ok::<Bytes, Fault>(
                setup.nf_signed,
            )
            &&& read("no cmx_new for"@, |b: BundleColumns| b.cmx_new) == Ok::<Bytes, Fault>(
                setup.cmx_new,
            )
            &&& read("no alpha for"@, |b: BundleColumns| b.alpha) == Ok::<Bytes, Fault>(setup.alpha)
            &&& read("no rseed_signed for"@, |b: BundleColumns| b.rseed_signed) == Ok::<
                Bytes,
                Fault,
            >(setup.rseed_signed)
            &&& read("no rseed_output for"@, |b: BundleColumns| b.rseed_output) == Ok::<
                Bytes,
                Fault,
            >(setup.rseed_output)
            &&& read("no pczt_sighash for"@, |b: BundleColumns| b.pczt_sighash) == Ok::<
                Bytes,
                Fault,
            >(setup.pczt_sighash)
            &&& read("no tx1_effects for"@, |b: BundleColumns| b.tx1_effects) == (
            match setup.tx1_effects {
                Some(effects) => Ok::<Bytes, Fault>(effects),
                None => Ok(bytes_or_empty(tables.bundles[key].tx1_effects)),
            })
            &&& words(setup.dummy_nullifiers) ==> words_outcome(
                read("no dummy_nullifiers for"@, |b: BundleColumns| b.dummy_nullifiers),
                "dummy_nullifiers blob"@,
            ) == Ok::<Seq<Bytes>, Fault>(setup.dummy_nullifiers)
            &&& words(setup.padded_cmx) ==> words_outcome(
                read("no padded_note_data for"@, |b: BundleColumns| b.padded_note_data),
                "padded_note_data blob"@,
            ) == Ok::<Seq<Bytes>, Fault>(setup.padded_cmx)
            &&& (forall|i: int|
                0 <= i < setup.padded_note_secrets.len() ==> (
                #[trigger] setup.padded_note_secrets[i]).0.len() == 32
                    && setup.padded_note_secrets[i].1.len() == 32) ==> secrets_outcome(
                t,
                round_id,
                wallet_id,
                bundle_index,
            ) == Ok::<Seq<(Bytes, Bytes)>, Fault>(setup.padded_note_secrets)
            &&& submission_outcome(t, round_id, wallet_id, bundle_index) matches Ok(submission) ==> {
                &&& submission.gov_comm == setup.gov_comm
                &&& submission.nf_signed == setup.nf_signed
                &&& submission.cmx_new == setup.cmx_new
                &&& submission.alpha == setup.alpha
                &&& submission.rk == (match setup.rk {
                    Some(rk) => rk,
                    None => bytes_or_empty(tables.bundles[key].rk),
                })
                &&& setup.gov_nullifiers matches Some(list) ==> (words(list)
                    ==> submission.gov_nullifiers == list)
                &&& setup.gov_nullifiers is None ==> Ok::<Seq<Bytes>, Fault>(
                    submission.gov_nullifiers,
                ) == stored_words(
                    bytes_or_empty(tables.bundles[key].gov_nullifiers_blob),
                    "gov_nullifiers_blob"@,
                )
                &&& setup.tx1_effects matches Some(effects) ==> submission.tx1_effects == effects
            }
            &&& is_proven(tables.proofs, key) && setup.gov_nullifiers is Some && words(
                setup.gov_nullifiers->Some_0,
            ) ==> submission_outcome(t, round_id, wallet_id, bundle_index) is Ok
            &&& zkp2_outcome(t, round_id, wallet_id, bundle_index) matches Ok(inputs) ==> {
                &&& inputs.gov_comm_rand == setup.van_comm_rand
                &&& inputs.total_note_value == setup.total_note_value
                &&& inputs.address_index == setup.address_index
            }
        }),
{
    if let Some(list) = setup.gov_nullifiers {
        if forall|i: int| 0 <= i < list.len() ==> (#[trigger] list[i]).len() == 32 {
            lemma_split_after_join(list, 32);
        }
    }
    let value = setup.total_note_value;
    assert((value as i64) as u64 == value) by (bit_vector);
    if forall|i: int|
        0 <= i < setup.dummy_nullifiers.len() ==> (#[trigger] setup.dummy_nullifiers[i]).len()
            == 32 {
        lemma_split_after_join(setup.dummy_nullifiers, 32);
    }
    if forall|i: int|
        0 <= i < setup.padded_cmx.len() ==> (#[trigger] setup.padded_cmx[i]).len() == 32 {
        lemma_split_after_join(setup.padded_cmx, 32);
    }
    if forall|i: int|
        0 <= i < setup.padded_note_secrets.len() ==> (#[trigger] setup.padded_note_secrets[i]).0.len()
            == 32 && setup.padded_note_secrets[i].1.len() == 32 {
        law_secrets_round_trip(setup.padded_note_secrets);
    }
}

/// A setup without TX1 effects leaves those of the bundle as they are, and is
/// the same for every verdict.
pub proof fn law_setup_without_effects(
    tables: Tables,
    round_id: Text,
    wallet_id: Text,
    bundle_index: u32,
    setup: DelegationSetup,
    effects_valid: Result<(), VotingError>,
)
    requires
        setup.tx1_effects is None,
    ensures
        ({
            let key = bundle_key(round_id, wallet_id, bundle_index as int);
            let stored = store_delegation_outcome(
                tables,
                round_id,
                wallet_id,
                bundle_index,
                setup,
                effects_valid,
            );
            &&& stored == store_delegation_outcome(
                tables,
                round_id,
                wallet_id,
                bundle_index,
                setup,
                Ok(()),
            )
            &&& stored matches Ok(next) ==> next.bundles[key].tx1_effects
                == tables.bundles[key].tx1_effects
        }),
{
}

/// A setup with public inputs, once its proof is stored, is submitted with the
/// proof: `rk`, the governance nullifiers, and all else that was set up.
pub proof fn law_setup_is_submitted(
    tables: Tables,
    round_id: Text,
    wallet_id: Text,
    bundle_index: u32,
    setup: DelegationSetup,
    proof: Bytes,
    now: i64,
)
    requires
        setup.rk is Some,
        setup.gov_nullifiers is Some,
        setup.tx1_effects is Some,
        forall|i: int|
            0 <= i < setup.gov_nullifiers->Some_0.len() ==> (
            #[trigger] setup.gov_nullifiers->Some_0[i]).len() == 32,
        store_delegation_outcome(
            tables,
            round_id,
            wallet_id,
            bundle_index,
            setup,
            Ok(()),
        ) is Ok,
    ensures
        ({
            let ready = store_delegation_outcome(
                tables,
                round_id,
                wallet_id,
                bundle_index,
                setup,
                Ok(()),
            )->Ok_0;
            let proven = store_proof_outcome(ready, round_id, wallet_id, bundle_index, proof, now);
            &&& proven is Ok
            &&& submission_outcome(proven->Ok_0, round_id, wallet_id, bundle_index) == Ok::<
                SubmissionModel,
                Fault,
            >(
                SubmissionModel {
                    proof,
                    rk: setup.rk->Some_0,
                    nf_signed: setup.nf_signed,
                    cmx_new: setup.cmx_new,
                    gov_comm: setup.gov_comm,
                    gov_nullifiers: setup.gov_nullifiers->Some_0,
                    alpha: setup.alpha,
                    vote_round_id: round_id,
                    tx1_effects: setup.tx1_effects->Some_0,
                },
            )
        }),
{
    lemma_split_after_join(setup.gov_nullifiers->Some_0, 32);
}

/// Padding secrets that are stored into a bundle without any are read back, and
/// no later ones take their place.
pub proof fn law_first_secrets_stay(
    tables: Tables,
    round_id: Text,
    wallet_id: Text,
    bundle_index: u32,
    secrets: Seq<(Bytes, Bytes)>,
    later: Seq<(Bytes, Bytes)>,
)
    requires
        forall|i: int|
            0 <= i < secrets.len() ==> (#[trigger] secrets[i]).0.len() == 32 && secrets[i].1.len()
                == 32,
        tables.bundles.contains_key(bundle_key(round_id, wallet_id, bundle_index as int)),
        tables.bundles[bundle_key(
            round_id,
            wallet_id,
            bundle_index as int,
        )].padded_note_secrets is None,
    ensures
        ({
            let first = store_secrets_outcome(tables, round_id, wallet_id, bundle_index, secrets);
            &&& first is Ok
            &&& secrets_outcome(first->Ok_0, round_id, wallet_id, bundle_index) == Ok::<
                Seq<(Bytes, Bytes)>,
                Fault,
            >(secrets)
            &&& store_secrets_outcome(first->Ok_0, round_id, wallet_id, bundle_index, later)
                == first
        }),
{
    law_secrets_round_trip(secrets);
    let first = store_secrets_outcome(tables, round_id, wallet_id, bundle_index, secrets);
    let again = store_secrets_outcome(first->Ok_0, round_id, wallet_id, bundle_index, later);
    assert(again->Ok_0.bundles =~= first->Ok_0.bundles);
}

/// After the unsigned setup of a round is cleared, the delegation of each of
/// its unsigned bundles can be set up anew with anything.
pub proof fn law_cleared_setup_runs_again(
    tables: Tables,
    round_id: Text,
    wallet_id: Text,
    bundle_index: u32,
    setup: DelegationSetup,
)
    requires
        ({
            let key = bundle_key(round_id, wallet_id, bundle_index as int);
            &&& tables.bundles.contains_key(key)
            &&& tables.bundles[key].note_positions_blob is Some
            &&& tables.bundles[key].delegation_tx_hash is None
            &&& tables.bundles[key].van_leaf_position is None
            &&& !tables.keystone_signatures.contains_key(key)
        }),
    ensures
        store_delegation_outcome(
            unsigned_setup_cleared(tables, round_key(round_id, wallet_id)),
            round_id,
            wallet_id,
            bundle_index,
            setup,
            Ok(()),
        ) is Ok,
{
}

/// Clearing the unsigned setup of a round empties what a setup stores in every
/// bundle of the round that has note positions and is not submitted, confirmed
/// or signed, and keeps its notes. All else stays: the other bundles, and the
/// other tables.
pub proof fn law_unsigned_setup_is_cleared(tables: Tables, round: RoundKey, key: BundleKey)
    ensures
        ({
            let next = unsigned_setup_cleared(tables, round);
            let before = tables.bundles[key];
            let after = next.bundles[key];
            let unsigned = {
                &&& tables.bundles.contains_key(key)
                &&& key.round == round
                &&& before.note_positions_blob is Some
                &&& before.delegation_tx_hash is None
                &&& before.van_leaf_position is None
                &&& !tables.keystone_signatures.contains_key(key)
            };
            &&& next == (Tables { bundles: next.bundles, ..tables })
            &&& next.bundles.contains_key(key) == tables.bundles.contains_key(key)
            &&& tables.bundles.contains_key(key) && !unsigned ==> after == before
            &&& unsigned ==> {
                &&& after.van_comm_rand is None
                &&& after.dummy_nullifiers is None
                &&& after.rho_signed is None
                &&& after.padded_note_data is None
                &&& after.nf_signed is None
                &&& after.cmx_new is None
                &&& after.alpha is None
                &&& after.rseed_signed is None
                &&& after.rseed_output is None
                &&& after.gov_comm is None
                &&& after.total_note_value is None
                &&& after.address_index is None
                &&& after.rk is None
                &&& after.gov_nullifiers_blob is None
                &&& after.padded_note_secrets is None
                &&& after.pczt_sighash is None
                &&& after.tx1_effects is None
                &&& after.note_positions_blob == before.note_positions_blob
                &&& after.note_identity_hashes_blob == before.note_identity_hashes_blob
                &&& after.delegation_tx_hash is None
                &&& after.van_leaf_position is None
            }
        }),
{
}

/// Clearing the unsigned setup of a round leaves every bundle as it is that is
/// imported, signed, submitted or confirmed, and clearing it again changes
/// nothing.
pub proof fn law_clearing_setup_spares_signed(tables: Tables, round: RoundKey, key: BundleKey)
    requires
        tables.bundles.contains_key(key),
    ensures
        ({
            let next = unsigned_setup_cleared(tables, round);
            let before = tables.bundles[key];
            &&& next.bundles.contains_key(key)
            &&& before.note_positions_blob is None ==> next.bundles[key] == before
            &&& tables.keystone_signatures.contains_key(key) ==> next.bundles[key] == before
            &&& before.delegation_tx_hash is Some ==> next.bundles[key] == before
            &&& before.van_leaf_position is Some ==> next.bundles[key] == before
            &&& unsigned_setup_cleared(next, round) == next
        }),
{
    let next = unsigned_setup_cleared(tables, round);
    let again = unsigned_setup_cleared(next, round);
    assert(again.bundles =~= next.bundles);
}

/// Clearing the recovery state of a round leaves confirmed delegations,
/// imported bundles and confirmed votes as they are, and leaves no share and no
/// Keystone signature of the round.
pub proof fn law_clearing_recovery_spares_confirmed(tables: Tables, round: RoundKey)
    ensures
        ({
            let next = recovery_cleared(tables, round);
            &&& forall|key: BundleKey| #[trigger]
                tables.bundles.contains_key(key) && (tables.bundles[key].van_leaf_position is Some
                    || tables.bundles[key].note_positions_blob is None)
                    ==> next.bundles.contains_key(key) && next.bundles[key] == tables.bundles[key]
            &&& forall|key: VoteKey| #[trigger]
                tables.votes.contains_key(key) && tables.votes[key].vc_tree_position is Some
                    ==> next.votes.contains_key(key) && next.votes[key] == tables.votes[key]
            &&& forall|key: ShareKey| #[trigger]
                next.share_delegations.contains_key(key) ==> key.vote.bundle.round != round
            &&& forall|key: BundleKey| #[trigger]
                next.keystone_signatures.contains_key(key) ==> key.round != round
        }),
{
}

/// A stored Keystone signature is listed as it was stored.
pub proof fn law_signature_read_back(
    tables: Tables,
    round_id: Text,
    wallet_id: Text,
    bundle_index: u32,
    sig: Bytes,
    sighash: Bytes,
    rk: Bytes,
    now: u64,
)
    requires
        store_keystone_outcome(
            tables,
            round_id,
            wallet_id,
            bundle_index,
            sig,
            sighash,
            rk,
            now,
        ) is Ok,
    ensures
        ({
            let key = bundle_key(round_id, wallet_id, bundle_index as int);
            let next = store_keystone_outcome(
                tables,
                round_id,
                wallet_id,
                bundle_index,
                sig,
                sighash,
                rk,
                now,
            )->Ok_0;
            &&& next.keystone_signatures.contains_key(key)
            &&& signature_record(key, next.keystone_signatures[key]) == KeystoneModel {
                bundle_index,
                sig,
                sighash,
                rk,
            }
        }),
{
}

/// A bundle counts as delegated once its proof and its VAN leaf position are
/// stored, in either order, and not before.
pub proof fn law_proof_and_position_delegate(
    tables: Tables,
    round_id: Text,
    wallet_id: Text,
    bundle_index: u32,
    proof: Bytes,
    position: u32,
    now: i64,
)
    requires
        tables.bundles.contains_key(bundle_key(round_id, wallet_id, bundle_index as int)),
    ensures
        ({
            let key = bundle_key(round_id, wallet_id, bundle_index as int);
            let proven = store_proof_outcome(tables, round_id, wallet_id, bundle_index, proof, now);
            let landed = store_van_position_outcome(
                tables,
                round_id,
                wallet_id,
                bundle_index,
                position,
            );
            let delegated = |t: Tables| is_delegated(t.proofs, key, t.bundles[key]);
            &&& proven is Ok && landed is Ok
            &&& tables.bundles[key].van_leaf_position is None ==> !delegated(proven->Ok_0)
            &&& store_van_position_outcome(
                proven->Ok_0,
                round_id,
                wallet_id,
                bundle_index,
                position,
            ) matches Ok(both)
            &&& delegated(both)
            &&& store_proof_outcome(
                landed->Ok_0,
                round_id,
                wallet_id,
                bundle_index,
                proof,
                now,
            ) == Ok::<Tables, Fault>(both)
        }),
{
    let proven = store_proof_outcome(
        tables,
        round_id,
        wallet_id,
        bundle_index,
        proof,
        now,
    )->Ok_0;
    let landed = store_van_position_outcome(
        tables,
        round_id,
        wallet_id,
        bundle_index,
        position,
    )->Ok_0;
    let a = store_van_position_outcome(
        proven,
        round_id,
        wallet_id,
        bundle_index,
        position,
    )->Ok_0;
    let b = store_proof_outcome(landed, round_id, wallet_id, bundle_index, proof, now)->Ok_0;
    assert(a.bundles =~= b.bundles);
    assert(a.proofs =~= b.proofs);
}

/// A signed bundle is spared when unsigned setup is cleared.
pub proof fn law_signature_protects_setup(
    tables: Tables,
    round_id: Text,
    wallet_id: Text,
    bundle_index: u32,
    sig: Bytes,
    sighash: Bytes,
    rk: Bytes,
    now: u64,
)
    requires
        store_keystone_outcome(
            tables,
            round_id,
            wallet_id,
            bundle_index,
            sig,
            sighash,
            rk,
            now,
        ) is Ok,
    ensures
        ({
            let key = bundle_key(round_id, wallet_id, bundle_index as int);
            let signed = store_keystone_outcome(
                tables,
                round_id,
                wallet_id,
                bundle_index,
                sig,
                sighash,
                rk,
                now,
            )->Ok_0;
            unsigned_setup_cleared(signed, round_key(round_id, wallet_id)).bundles[key]
                == tables.bundles[key]
        }),
{
}

/// A proof that follows a setup with public inputs is accepted exactly if it
/// gives back these inputs.
pub proof fn law_proof_reproduces_setup(
    tables: Tables,
    round_id: Text,
    wallet_id: Text,
    bundle_index: u32,
    setup: DelegationSetup,
    fields: ProofFields,
)
    requires
        setup.rk is Some,
        setup.gov_nullifiers is Some,
        store_delegation_outcome(
            tables,
            round_id,
            wallet_id,
            bundle_index,
            setup,
            Ok(()),
        ) is Ok,
    ensures
        ({
            let ready = store_delegation_outcome(
                tables,
                round_id,
                wallet_id,
                bundle_index,
                setup,
                Ok(()),
            )->Ok_0;
            store_proof_fields_outcome(ready, round_id, wallet_id, bundle_index, fields) is Ok
                <==> fields.rk == setup.rk->Some_0 && joined(fields.gov_nullifiers) == joined(
                setup.gov_nullifiers->Some_0,
            ) && fields.nf_signed == setup.nf_signed && fields.cmx_new == setup.cmx_new && (
            fields.van_comm is Some ==> fields.van_comm->Some_0 == setup.gov_comm)
        }),
{
}

/// A stored delegation proof proves its bundle, and is what is submitted for it
/// if the stored governance nullifiers are intact.
pub proof fn law_stored_proof_is_submitted(
    tables: Tables,
    round_id: Text,
    wallet_id: Text,
    bundle_index: u32,
    proof: Bytes,
    now: i64,
)
    requires
        store_proof_outcome(tables, round_id, wallet_id, bundle_index, proof, now) is Ok,
        tables.bundles.contains_key(bundle_key(round_id, wallet_id, bundle_index as int)),
    ensures
        ({
            let key = bundle_key(round_id, wallet_id, bundle_index as int);
            let next = store_proof_outcome(
                tables,
                round_id,
                wallet_id,
                bundle_index,
                proof,
                now,
            )->Ok_0;
            &&& is_proven(next.proofs, key)
            &&& submission_outcome(next, round_id, wallet_id, bundle_index) matches Ok(submission)
                ==> submission.proof == proof
            &&& submission_outcome(next, round_id, wallet_id, bundle_index) is Ok <==> (
            tables.bundles[key].gov_nullifiers_blob matches Some(blob) ==> blob.len() % 32 == 0)
        }),
{
}

/// A cached non-membership proof is read back for its root, and for no other
/// one.
pub proof fn law_imt_proof_read_back(
    tables: Tables,
    round_id: Text,
    wallet_id: Text,
    bundle_index: u32,
    nullifier: Bytes,
    proof: ImtProofModel,
    now: i64,
    expected_root: Bytes,
)
    requires
        is_canonical(proof.root),
        proof.nf_bounds.len() == 3,
        forall|i: int| 0 <= i < 3 ==> is_canonical(#[trigger] proof.nf_bounds[i]),
        proof.path.len() == 29,
        forall|i: int| 0 <= i < 29 ==> is_canonical(#[trigger] proof.path[i]),
        store_imt_proof_outcome(
            tables,
            round_id,
            wallet_id,
            bundle_index,
            nullifier,
            proof,
            now,
        ) is Ok,
    ensures
        imt_proof_outcome(
            store_imt_proof_outcome(
                tables,
                round_id,
                wallet_id,
                bundle_index,
                nullifier,
                proof,
                now,
            )->Ok_0,
            imt_key(round_id, wallet_id, bundle_index, nullifier),
            expected_root,
        ) == Ok::<Option<ImtProofModel>, Fault>(
            if expected_root == proof.root {
                Some(proof)
            } else {
                None
            },
        ),
{
    law_fields_round_trip(proof.nf_bounds, "imt_proof.nf_bounds"@);
    law_fields_round_trip(proof.path, "imt_proof.path"@);
}

/// The witnesses of a bundle are replaced exactly if they are, in any order,
/// those of its note positions.
pub proof fn law_witnesses_match_positions(
    tables: Tables,
    round_id: Text,
    wallet_id: Text,
    bundle_index: u32,
    witnesses: Seq<WitnessModel>,
    now: i64,
)
    ensures
        replace_witnesses_outcome(
            tables,
            round_id,
            wallet_id,
            bundle_index,
            witnesses,
            now,
        ) is Ok <==> (note_positions_outcome(tables, round_id, wallet_id, bundle_index) matches Ok(
            positions,
        ) && positions.to_multiset() == witness_positions(witnesses).to_multiset()),
{
    if let Ok(positions) = note_positions_outcome(tables, round_id, wallet_id, bundle_index) {
        let requested = witness_positions(witnesses);
        let le = |a: u64, b: u64| a <= b;
        assert(vstd::relations::total_ordering(le));
        positions.lemma_sort_by_ensures(le);
        requested.lemma_sort_by_ensures(le);
        if positions.to_multiset() == requested.to_multiset() {
            vstd::seq_lib::lemma_sorted_unique(ascending(positions), ascending(requested), le);
        }
    }
}

/// Witnesses with different positions are all stored, and nothing is added but
/// them.
proof fn lemma_witnesses_hold(
    stored: Map<WitnessKey, WitnessColumns>,
    bundle: BundleKey,
    witnesses: Seq<WitnessModel>,
    now: i64,
)
    requires
        witness_positions(witnesses).no_duplicates(),
    ensures
        ({
            let all = with_witnesses(stored, bundle, witnesses, now);
            &&& forall|i: int|
                0 <= i < witnesses.len() ==> all.contains_key(
                    witness_key(bundle, #[trigger] witnesses[i]),
                ) && all[witness_key(bundle, witnesses[i])] == witness_columns(witnesses[i], now)
            &&& forall|key: WitnessKey| #[trigger]
                all.contains_key(key) ==> stored.contains_key(key) || exists|i: int|
                    0 <= i < witnesses.len() && key == witness_key(bundle, #[trigger] witnesses[i])
        }),
    decreases witnesses.len(),
{
    let all = with_witnesses(stored, bundle, witnesses, now);
    if witnesses.len() > 0 {
        let init = witnesses.drop_last();
        let last = witnesses.last();
        let front = with_witnesses(stored, bundle, init, now);
        let positions = witness_positions(witnesses);
        assert(witness_positions(init) =~= positions.drop_last());
        lemma_witnesses_hold(stored, bundle, init, now);
        assert forall|i: int| 0 <= i < witnesses.len() implies all.contains_key(
            witness_key(bundle, #[trigger] witnesses[i]),
        ) && all[witness_key(bundle, witnesses[i])] == witness_columns(witnesses[i], now) by {
            if i < init.len() {
                assert(init[i] == witnesses[i]);
                assert(positions[i] != positions[init.len() as int]);
                let a = witnesses[i].position;
                let b = last.position;
                assert(a as i64 == b as i64 ==> a == b) by (bit_vector);
            }
        }
        assert forall|key: WitnessKey| #[trigger] all.contains_key(key) implies stored.contains_key(
            key,
        ) || exists|i: int|
            0 <= i < witnesses.len() && key == witness_key(bundle, #[trigger] witnesses[i]) by {
            if key == witness_key(bundle, last) {
                assert(witnesses[witnesses.len() - 1] == last);
            } else if !stored.contains_key(key) {
                assert(front.contains_key(key));
                let i = choose|i: int|
                    0 <= i < init.len() && key == witness_key(bundle, #[trigger] init[i]);
                assert(witnesses[i] == init[i]);
            }
        }
    }
}

/// Witnesses that replaced those of a bundle are what is stored of it: each of
/// them is read back, and there are no others. Their positions differ, and
/// their paths are 32 hashes of 32 bytes.
pub proof fn law_witnesses_read_back(
    tables: Tables,
    round_id: Text,
    wallet_id: Text,
    bundle_index: u32,
    witnesses: Seq<WitnessModel>,
    now: i64,
)
    requires
        witness_positions(witnesses).no_duplicates(),
        forall|i: int|
            0 <= i < witnesses.len() ==> (#[trigger] witnesses[i]).auth_path.len() == 32,
        forall|i: int, j: int|
            0 <= i < witnesses.len() && 0 <= j < 32 ==> (#[trigger] witnesses[i].auth_path[j]).len()
                == 32,
        replace_witnesses_outcome(
            tables,
            round_id,
            wallet_id,
            bundle_index,
            witnesses,
            now,
        ) is Ok,
    ensures
        ({
            let bundle = bundle_key(round_id, wallet_id, bundle_index as int);
            let next = replace_witnesses_outcome(
                tables,
                round_id,
                wallet_id,
                bundle_index,
                witnesses,
                now,
            )->Ok_0;
            &&& forall|i: int|
                0 <= i < witnesses.len() ==> witness_keys(next, bundle).contains(
                    witness_key(bundle, #[trigger] witnesses[i]),
                ) && stored_witness(
                    witness_key(bundle, witnesses[i]),
                    next.witnesses[witness_key(bundle, witnesses[i])],
                ) == Ok::<WitnessModel, Fault>(witnesses[i])
            &&& forall|key: WitnessKey| #[trigger]
                witness_keys(next, bundle).contains(key) ==> exists|i: int|
                    0 <= i < witnesses.len() && key == witness_key(bundle, #[trigger] witnesses[i])
        }),
{
    let bundle = bundle_key(round_id, wallet_id, bundle_index as int);
    let kept = tables.witnesses.remove_keys(witness_keys(tables, bundle));
    lemma_witnesses_hold(kept, bundle, witnesses, now);
    let next = replace_witnesses_outcome(
        tables,
        round_id,
        wallet_id,
        bundle_index,
        witnesses,
        now,
    )->Ok_0;
    assert forall|i: int| 0 <= i < witnesses.len() implies witness_keys(next, bundle).contains(
        witness_key(bundle, #[trigger] witnesses[i]),
    ) && stored_witness(
        witness_key(bundle, witnesses[i]),
        next.witnesses[witness_key(bundle, witnesses[i])],
    ) == Ok::<WitnessModel, Fault>(witnesses[i]) by {
        let position = witnesses[i].position;
        assert((position as i64) as u64 == position) by (bit_vector);
        let path = witnesses[i].auth_path;
        assert forall|j: int| 0 <= j < path.len() implies (#[trigger] path[j]).len() == 32 by {
            assert(witnesses[i].auth_path[j].len() == 32);
        }
        lemma_split_after_join(path, 32);
    }
    assert forall|key: WitnessKey| #[trigger]
        witness_keys(next, bundle).contains(key) implies exists|i: int|
        0 <= i < witnesses.len() && key == witness_key(bundle, #[trigger] witnesses[i]) by {
        assert(next.witnesses.contains_key(key));
        assert(!kept.contains_key(key));
    }
}

/// A witness of a list has a stored position.
spec fn at_position(witnesses: Seq<WitnessModel>, note_position: i64) -> bool {
    exists|i: int|
        0 <= i < witnesses.len() && (#[trigger] witnesses[i]).position as i64 == note_position
}

/// No witness of a list behind a place has the position of the one there.
spec fn is_last_at(witnesses: Seq<WitnessModel>, i: int) -> bool {
    forall|j: int|
        i < j < witnesses.len() ==> (#[trigger] witnesses[j]).position as i64
            != witnesses[i].position as i64
}

proof fn lemma_witnesses_by_position(
    stored: Map<WitnessKey, WitnessColumns>,
    bundle: BundleKey,
    witnesses: Seq<WitnessModel>,
    now: i64,
)
    ensures
        ({
            let all = with_witnesses(stored, bundle, witnesses, now);
            &&& forall|key: WitnessKey| #[trigger]
                all.contains_key(key) <==> stored.contains_key(key) || (key.bundle == bundle
                    && at_position(witnesses, key.note_position))
            &&& forall|key: WitnessKey| #[trigger]
                all.contains_key(key) && !(key.bundle == bundle && at_position(
                    witnesses,
                    key.note_position,
                )) ==> all[key] == stored[key]
            &&& forall|i: int|
                0 <= i < witnesses.len() && is_last_at(witnesses, i) ==> all[WitnessKey {
                    bundle,
                    note_position: (#[trigger] witnesses[i]).position as i64,
                }] == (WitnessColumns {
                    note_commitment: witnesses[i].note_commitment,
                    root: witnesses[i].root,
                    auth_path: joined(witnesses[i].auth_path),
                    created_at: now,
                })
        }),
    decreases witnesses.len(),
{
    if witnesses.len() > 0 {
        let init = witnesses.drop_last();
        let last = witnesses.last();
        let n = witnesses.len() - 1;
        lemma_witnesses_by_position(stored, bundle, init, now);
        let front = with_witnesses(stored, bundle, init, now);
        let all = with_witnesses(stored, bundle, witnesses, now);
        assert(witnesses[n] == last);
        assert forall|position: i64| #[trigger] at_position(witnesses, position) <==> at_position(
            init,
            position,
        ) || last.position as i64 == position by {
            if at_position(init, position) {
                let i = choose|i: int|
                    0 <= i < init.len() && (#[trigger] init[i]).position as i64 == position;
                assert(witnesses[i].position as i64 == position);
            }
            if at_position(witnesses, position) && last.position as i64 != position {
                let i = choose|i: int|
                    0 <= i < witnesses.len() && (#[trigger] witnesses[i]).position as i64
                        == position;
                assert(init[i].position as i64 == position);
            }
            if last.position as i64 == position {
                assert(witnesses[n].position as i64 == position);
            }
        }
        assert forall|i: int| 0 <= i < witnesses.len() && is_last_at(witnesses, i) implies all[
        WitnessKey { bundle, note_position: (#[trigger] witnesses[i]).position as i64 }] == (
        WitnessColumns {
            note_commitment: witnesses[i].note_commitment,
            root: witnesses[i].root,
            auth_path: joined(witnesses[i].auth_path),
            created_at: now,
        }) by {
            if i < n {
                assert(init[i] == witnesses[i]);
                assert(witnesses[n].position as i64 != witnesses[i].position as i64);
                assert(is_last_at(init, i)) by {
                    assert forall|j: int| i < j < init.len() implies (
                    #[trigger] init[j]).position as i64 != init[i].position as i64 by {
                        assert(witnesses[j] == init[j]);
                    }
                }
            }
        }
    }
}

/// Witnesses are stored for a stored bundle, each under its position, the last
/// one of a position in place of others; the other rows stay.
pub proof fn law_witnesses_are_stored(
    tables: Tables,
    round_id: Text,
    wallet_id: Text,
    bundle_index: u32,
    witnesses: Seq<WitnessModel>,
    now: i64,
)
    ensures
        ({
            let bundle = BundleKey {
                round: RoundKey { round_id, wallet_id },
                bundle_index: bundle_index as i64,
            };
            let given = |key: WitnessKey|
                key.bundle == bundle && exists|i: int|
                    0 <= i < witnesses.len() && (#[trigger] witnesses[i]).position as i64
                        == key.note_position;
            let done = store_witnesses_outcome(
                tables,
                round_id,
                wallet_id,
                bundle_index,
                witnesses,
                now,
            );
            &&& done is Ok <==> witnesses.len() == 0 || tables.bundles.contains_key(bundle)
            &&& done is Err ==> (done matches Err(Fault::Internal(_)))
            &&& done matches Ok(next) ==> {
                &&& next == (Tables { witnesses: next.witnesses, ..tables })
                &&& forall|key: WitnessKey| #[trigger]
                    next.witnesses.contains_key(key) <==> tables.witnesses.contains_key(key)
                        || given(key)
                &&& forall|key: WitnessKey| #[trigger]
                    next.witnesses.contains_key(key) && !given(key) ==> next.witnesses[key]
                        == tables.witnesses[key]
                &&& forall|i: int|
                    0 <= i < witnesses.len() && (forall|j: int|
                        i < j < witnesses.len() ==> (#[trigger] witnesses[j]).position as i64
                            != witnesses[i].position as i64) ==> next.witnesses[WitnessKey {
                        bundle,
                        note_position: (#[trigger] witnesses[i]).position as i64,
                    }] == (WitnessColumns {
                        note_commitment: witnesses[i].note_commitment,
                        root: witnesses[i].root,
                        auth_path: joined(witnesses[i].auth_path),
                        created_at: now,
                    })
            }
        }),
{
    let bundle = bundle_key(round_id, wallet_id, bundle_index as int);
    lemma_witnesses_by_position(tables.witnesses, bundle, witnesses, now);
    assert forall|key: WitnessKey| key.bundle == bundle implies #[trigger] at_position(
        witnesses,
        key.note_position,
    ) == (exists|i: int|
        0 <= i < witnesses.len() && (#[trigger] witnesses[i]).position as i64
            == key.note_position) by {
    }
    assert forall|i: int|
        0 <= i < witnesses.len() && (forall|j: int|
            i < j < witnesses.len() ==> (#[trigger] witnesses[j]).position as i64
                != witnesses[i].position as i64) implies #[trigger] is_last_at(witnesses, i) by {
    }
}

/// The witnesses of a bundle are replaced exactly if the bundle is stored with
/// note positions that can be read and the positions of the witnesses are
/// those, each as often. Then the bundle has the given witnesses and no others,
/// and the rows of other bundles stay.
pub proof fn law_witnesses_are_replaced(
    tables: Tables,
    round_id: Text,
    wallet_id: Text,
    bundle_index: u32,
    witnesses: Seq<WitnessModel>,
    now: i64,
)
    ensures
        ({
            let bundle = BundleKey {
                round: RoundKey { round_id, wallet_id },
                bundle_index: bundle_index as i64,
            };
            let given = |key: WitnessKey|
                exists|i: int|
                    0 <= i < witnesses.len() && (#[trigger] witnesses[i]).position as i64
                        == key.note_position;
            let read = note_positions_outcome(tables, round_id, wallet_id, bundle_index);
            let done = replace_witnesses_outcome(
                tables,
                round_id,
                wallet_id,
                bundle_index,
                witnesses,
                now,
            );
            &&& done is Ok <==> (read matches Ok(positions) && positions.to_multiset()
                == witnesses.map_values(|witness: WitnessModel| witness.position).to_multiset())
            &&& read matches Err(fault) ==> done == Err::<Tables, Fault>(fault)
            &&& read is Ok && done is Err ==> (done matches Err(Fault::InvalidInput(_)))
            &&& done matches Ok(next) ==> {
                &&& next == (Tables { witnesses: next.witnesses, ..tables })
                &&& forall|key: WitnessKey| #[trigger]
                    next.witnesses.contains_key(key) <==> if key.bundle == bundle {
                        given(key)
                    } else {
                        tables.witnesses.contains_key(key)
                    }
                &&& forall|key: WitnessKey| #[trigger]
                    next.witnesses.contains_key(key) && key.bundle != bundle ==> next.witnesses[key]
                        == tables.witnesses[key]
                &&& forall|i: int|
                    0 <= i < witnesses.len() && (forall|j: int|
                        i < j < witnesses.len() ==> (#[trigger] witnesses[j]).position as i64
                            != witnesses[i].position as i64) ==> next.witnesses[WitnessKey {
                        bundle,
                        note_position: (#[trigger] witnesses[i]).position as i64,
                    }] == (WitnessColumns {
                        note_commitment: witnesses[i].note_commitment,
                        root: witnesses[i].root,
                        auth_path: joined(witnesses[i].auth_path),
                        created_at: now,
                    })
            }
        }),
{
    let bundle = bundle_key(round_id, wallet_id, bundle_index as int);
    let kept = tables.witnesses.remove_keys(witness_keys(tables, bundle));
    law_witnesses_match_positions(tables, round_id, wallet_id, bundle_index, witnesses, now);
    lemma_witnesses_by_position(kept, bundle, witnesses, now);
    assert(witness_positions(witnesses) =~= witnesses.map_values(
        |witness: WitnessModel| witness.position,
    ));
    assert forall|key: WitnessKey| key.bundle == bundle implies #[trigger] at_position(
        witnesses,
        key.note_position,
    ) == (exists|i: int|
        0 <= i < witnesses.len() && (#[trigger] witnesses[i]).position as i64
            == key.note_position) by {
    }
    assert forall|i: int|
        0 <= i < witnesses.len() && (forall|j: int|
            i < j < witnesses.len() ==> (#[trigger] witnesses[j]).position as i64
                != witnesses[i].position as i64) implies #[trigger] is_last_at(witnesses, i) by {
    }
}

} // verus!
