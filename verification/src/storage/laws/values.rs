//! What values and rows stand for in contracts, field by field.

use vstd::prelude::*;

use crate::bytes::parts_of;
use crate::storage::field::{FieldElement, ImtProofData};
use crate::storage::notes::secrets_of;
use crate::storage::queries::confirmations::{VanTreeEntry, Zkp2DelegationData};
use crate::storage::queries::delegation::{
    checked, optional_parts, optional_slice, DelegationDbFields,
};
use crate::storage::queries::proofs::imt_key;
use crate::storage::queries::rounds::optional_text;
use crate::storage::rows::{
    bundle_key, intent_key, round_key, share_key, vote_key, BundleColumns, BundleKey, BundleRow,
    ImtColumns, ImtKey, ImtProofRow, IntentColumns, IntentKey, IntentRow, KeystoneColumns,
    KeystoneRow, ProofColumns, ProofRow, RoundColumns, RoundKey, RoundRow, ShareColumns, ShareKey,
    ShareRow, TreeStateColumns, TreeStateRow, VoteColumns, VoteKey, VoteRow, WitnessColumns,
    WitnessKey, WitnessRow,
};
use crate::storage::table::Row;
use crate::storage::tables::{looked_up, no_rows, ran, ran_with, Tables, VotingTables};
use crate::storage::{RoundPhase, RoundState, RoundSummary};
use crate::types::{
    answers, notes_of, texts_of, witnesses_of, Bytes, Fault, KeystoneSignatureRecord, Modeled,
    Network, NoteInfo, ShareDelegationRecord, Text, VoteRecord, VotingError, VotingRoundParams,
    WitnessData,
};

verus! {

/// Keys name what they are made of: different names, wallets and numbers give
/// different keys.
pub proof fn law_keys_name_their_parts(
    round_id: Text,
    wallet_id: Text,
    bundle_index: u32,
    proposal_id: u32,
    share_index: u32,
    nullifier: Bytes,
)
    ensures
        ({
            let round = RoundKey { round_id, wallet_id };
            let bundle = BundleKey { round, bundle_index: bundle_index as i64 };
            let vote = VoteKey { bundle, proposal_id: proposal_id as i64 };
            &&& round_key(round_id, wallet_id) == round
            &&& bundle_key(round_id, wallet_id, bundle_index as int) == bundle
            &&& vote_key(round_id, wallet_id, bundle_index as int, proposal_id as int) == vote
            &&& share_key(
                round_id,
                wallet_id,
                bundle_index as int,
                proposal_id as int,
                share_index as int,
            ) == (ShareKey { vote, share_index: share_index as i64 })
            &&& intent_key(round_id, wallet_id, proposal_id as int) == (IntentKey {
                round,
                proposal_id: proposal_id as i64,
            })
            &&& imt_key(round_id, wallet_id, bundle_index, nullifier) == (ImtKey {
                bundle,
                nullifier,
            })
        }),
{
}

/// A round is known by the columns of its row: some make its key, the others are
/// its data, each as it is stored.
pub proof fn law_round_row_columns(row: RoundRow)
    ensures
        row.key() == (RoundKey { round_id: row.round_id@, wallet_id: row.wallet_id@ }),
        row.data().network == row.network@,
        row.data().snapshot_height == row.snapshot_height,
        row.data().ea_pk == row.ea_pk@,
        row.data().nc_root == row.nc_root@,
        row.data().nullifier_imt_root == row.nullifier_imt_root@,
        row.data().session_json is Some <==> row.session_json is Some,
        row.session_json matches Some(value) ==> row.data().session_json == Some(value@),
        row.data().phase == row.phase,
        row.data().created_at == row.created_at,
{
}

/// A tree state is known by the columns of its row: some make its key, the others are
/// its data, each as it is stored.
pub proof fn law_tree_state_row_columns(row: TreeStateRow)
    ensures
        row.key() == (RoundKey { round_id: row.round_id@, wallet_id: row.wallet_id@ }),
        row.data().snapshot_height == row.snapshot_height,
        row.data().tree_state == row.tree_state@,
{
}

/// A ballot intent is known by the columns of its row: some make its key, the others are
/// its data, each as it is stored.
pub proof fn law_intent_row_columns(row: IntentRow)
    ensures
        row.key() == (IntentKey { round: RoundKey { round_id: row.round_id@, wallet_id: row.wallet_id@ }, proposal_id: row.proposal_id }),
        row.data().skipped == row.skipped,
        row.data().choice == row.choice,
{
}

/// A bundle is known by the columns of its row: some make its key, the others are
/// its data, each as it is stored.
pub proof fn law_bundle_row_columns(row: BundleRow)
    ensures
        row.key() == (BundleKey { round: RoundKey { round_id: row.round_id@, wallet_id: row.wallet_id@ }, bundle_index: row.bundle_index }),
        row.data().note_positions_blob is Some <==> row.note_positions_blob is Some,
        row.note_positions_blob matches Some(value) ==> row.data().note_positions_blob == Some(value@),
        row.data().note_identity_hashes_blob is Some <==> row.note_identity_hashes_blob is Some,
        row.note_identity_hashes_blob matches Some(value) ==> row.data().note_identity_hashes_blob == Some(value@),
        row.data().van_comm_rand is Some <==> row.van_comm_rand is Some,
        row.van_comm_rand matches Some(value) ==> row.data().van_comm_rand == Some(value@),
        row.data().dummy_nullifiers is Some <==> row.dummy_nullifiers is Some,
        row.dummy_nullifiers matches Some(value) ==> row.data().dummy_nullifiers == Some(value@),
        row.data().rho_signed is Some <==> row.rho_signed is Some,
        row.rho_signed matches Some(value) ==> row.data().rho_signed == Some(value@),
        row.data().padded_note_data is Some <==> row.padded_note_data is Some,
        row.padded_note_data matches Some(value) ==> row.data().padded_note_data == Some(value@),
        row.data().nf_signed is Some <==> row.nf_signed is Some,
        row.nf_signed matches Some(value) ==> row.data().nf_signed == Some(value@),
        row.data().cmx_new is Some <==> row.cmx_new is Some,
        row.cmx_new matches Some(value) ==> row.data().cmx_new == Some(value@),
        row.data().alpha is Some <==> row.alpha is Some,
        row.alpha matches Some(value) ==> row.data().alpha == Some(value@),
        row.data().rseed_signed is Some <==> row.rseed_signed is Some,
        row.rseed_signed matches Some(value) ==> row.data().rseed_signed == Some(value@),
        row.data().rseed_output is Some <==> row.rseed_output is Some,
        row.rseed_output matches Some(value) ==> row.data().rseed_output == Some(value@),
        row.data().gov_comm is Some <==> row.gov_comm is Some,
        row.gov_comm matches Some(value) ==> row.data().gov_comm == Some(value@),
        row.data().total_note_value == row.total_note_value,
        row.data().address_index == row.address_index,
        row.data().rk is Some <==> row.rk is Some,
        row.rk matches Some(value) ==> row.data().rk == Some(value@),
        row.data().gov_nullifiers_blob is Some <==> row.gov_nullifiers_blob is Some,
        row.gov_nullifiers_blob matches Some(value) ==> row.data().gov_nullifiers_blob == Some(value@),
        row.data().padded_note_secrets is Some <==> row.padded_note_secrets is Some,
        row.padded_note_secrets matches Some(value) ==> row.data().padded_note_secrets == Some(value@),
        row.data().pczt_sighash is Some <==> row.pczt_sighash is Some,
        row.pczt_sighash matches Some(value) ==> row.data().pczt_sighash == Some(value@),
        row.data().tx1_effects is Some <==> row.tx1_effects is Some,
        row.tx1_effects matches Some(value) ==> row.data().tx1_effects == Some(value@),
        row.data().van_leaf_position == row.van_leaf_position,
        row.data().delegation_tx_hash is Some <==> row.delegation_tx_hash is Some,
        row.delegation_tx_hash matches Some(value) ==> row.data().delegation_tx_hash == Some(value@),
{
}

/// A delegation proof is known by the columns of its row: some make its key, the others are
/// its data, each as it is stored.
pub proof fn law_proof_row_columns(row: ProofRow)
    ensures
        row.key() == (BundleKey { round: RoundKey { round_id: row.round_id@, wallet_id: row.wallet_id@ }, bundle_index: row.bundle_index }),
        row.data().proof == row.proof@,
        row.data().success == row.success,
        row.data().created_at == row.created_at,
{
}

/// A Keystone signature is known by the columns of its row: some make its key, the others are
/// its data, each as it is stored.
pub proof fn law_keystone_row_columns(row: KeystoneRow)
    ensures
        row.key() == (BundleKey { round: RoundKey { round_id: row.round_id@, wallet_id: row.wallet_id@ }, bundle_index: row.bundle_index }),
        row.data().sig == row.sig@,
        row.data().sighash == row.sighash@,
        row.data().rk == row.rk@,
        row.data().created_at == row.created_at,
{
}

/// A witness is known by the columns of its row: some make its key, the others are
/// its data, each as it is stored.
pub proof fn law_witness_row_columns(row: WitnessRow)
    ensures
        row.key() == (WitnessKey { bundle: BundleKey { round: RoundKey { round_id: row.round_id@, wallet_id: row.wallet_id@ }, bundle_index: row.bundle_index }, note_position: row.note_position }),
        row.data().note_commitment == row.note_commitment@,
        row.data().root == row.root@,
        row.data().auth_path == row.auth_path@,
        row.data().created_at == row.created_at,
{
}

/// A non-membership proof is known by the columns of its row: some make its key, the others are
/// its data, each as it is stored.
pub proof fn law_imt_proof_row_columns(row: ImtProofRow)
    ensures
        row.key() == (ImtKey { bundle: BundleKey { round: RoundKey { round_id: row.round_id@, wallet_id: row.wallet_id@ }, bundle_index: row.bundle_index }, nullifier: row.nullifier@ }),
        row.data().root == row.root@,
        row.data().nf_bounds == row.nf_bounds@,
        row.data().leaf_pos == row.leaf_pos,
        row.data().path == row.path@,
        row.data().created_at == row.created_at,
{
}

/// A vote is known by the columns of its row: some make its key, the others are
/// its data, each as it is stored.
pub proof fn law_vote_row_columns(row: VoteRow)
    ensures
        row.key() == (VoteKey { bundle: BundleKey { round: RoundKey { round_id: row.round_id@, wallet_id: row.wallet_id@ }, bundle_index: row.bundle_index }, proposal_id: row.proposal_id }),
        row.data().choice == row.choice,
        row.data().commitment is Some <==> row.commitment is Some,
        row.commitment matches Some(value) ==> row.data().commitment == Some(value@),
        row.data().tx_hash is Some <==> row.tx_hash is Some,
        row.tx_hash matches Some(value) ==> row.data().tx_hash == Some(value@),
        row.data().commitment_bundle_json is Some <==> row.commitment_bundle_json is Some,
        row.commitment_bundle_json matches Some(value) ==> row.data().commitment_bundle_json == Some(value@),
        row.data().vc_tree_position == row.vc_tree_position,
        row.data().created_at == row.created_at,
{
}

/// A share is known by the columns of its row: some make its key, the others are
/// its data, each as it is stored.
pub proof fn law_share_row_columns(row: ShareRow)
    ensures
        row.key() == (ShareKey { vote: VoteKey { bundle: BundleKey { round: RoundKey { round_id: row.round_id@, wallet_id: row.wallet_id@ }, bundle_index: row.bundle_index }, proposal_id: row.proposal_id }, share_index: row.share_index }),
        row.data().sent_to_urls == row.sent_to_urls@,
        row.data().nullifier == row.nullifier@,
        row.data().confirmed == row.confirmed,
        row.data().submit_at == row.submit_at,
        row.data().created_at == row.created_at,
{
}

/// The contents of the tables are the contents of each of them.
pub proof fn law_tables_are_their_contents(tables: VotingTables)
    ensures
        tables@.rounds == tables.rounds@,
        tables@.tree_states == tables.tree_states@,
        tables@.ballot_intents == tables.ballot_intents@,
        tables@.bundles == tables.bundles@,
        tables@.proofs == tables.proofs@,
        tables@.keystone_signatures == tables.keystone_signatures@,
        tables@.witnesses == tables.witnesses@,
        tables@.imt_proofs == tables.imt_proofs@,
        tables@.votes == tables.votes@,
        tables@.share_delegations == tables.share_delegations@,
{
}

/// A result answers an outcome exactly if both have a value, and the value
/// stands for that of the outcome, or both have an error, and it is that of the
/// outcome.
pub proof fn law_answers<T: Modeled>(
    result: Result<T, VotingError>,
    outcome: Result<T::Model, Fault>,
)
    ensures
        answers(result, outcome) <==> {
            &&& result is Ok <==> outcome is Ok
            &&& result matches Ok(value) ==> value.model() == outcome->Ok_0
            &&& result matches Err(error) ==> error@ == outcome->Err_0
        },
{
}

/// An operation ran as its outcome says exactly if it succeeded with it, in its
/// state and with its value, or failed with it and changed nothing.
pub proof fn law_ran<T: Modeled>(
    result: Result<(), VotingError>,
    outcome: Result<Tables, Fault>,
    valued: Result<T, VotingError>,
    with_value: Result<(Tables, T::Model), Fault>,
    before: Tables,
    after: Tables,
)
    ensures
        ran(result, outcome, before, after) <==> {
            &&& result is Ok <==> outcome is Ok
            &&& result is Ok ==> after == outcome->Ok_0
            &&& result matches Err(error) ==> error@ == outcome->Err_0 && after == before
        },
        ran_with(valued, with_value, before, after) <==> {
            &&& valued is Ok <==> with_value is Ok
            &&& valued matches Ok(value) ==> after == with_value->Ok_0.0 && value.model()
                == with_value->Ok_0.1
            &&& valued matches Err(error) ==> error@ == with_value->Err_0 && after == before
        },
{
}

/// Errors say what they are and why.
pub proof fn law_errors_are_faults(error: VotingError)
    ensures
        match error {
            VotingError::InvalidInput { message } => error@ == Fault::InvalidInput(message@),
            VotingError::Internal { message } => error@ == Fault::Internal(message@),
        },
{
}

/// The phases of a round follow each other from zero on.
pub proof fn law_phases_are_numbered(v: i32)
    ensures
        RoundPhase::Initialized.place() == 0,
        RoundPhase::HotkeyGenerated.place() == 1,
        RoundPhase::DelegationConstructed.place() == 2,
        RoundPhase::DelegationProved.place() == 3,
        RoundPhase::VoteReady.place() == 4,
        0 <= v <= 4 ==> RoundPhase::at(v).place() == v,
        !(0 <= v <= 4) ==> RoundPhase::at(v) == RoundPhase::Initialized,
{
}

/// Optional arguments stand for what they hold.
pub proof fn law_optional_arguments(
    text: Option<&str>,
    bytes: Option<&[u8]>,
    parts: Option<&[Vec<u8>]>,
    i: int,
)
    ensures
        optional_text(text) is Some <==> text is Some,
        text matches Some(value) ==> optional_text(text) == Some(value@),
        optional_slice(bytes) is Some <==> bytes is Some,
        bytes matches Some(value) ==> optional_slice(bytes) == Some(value@),
        optional_parts(parts) is Some <==> parts is Some,
        parts matches Some(value) ==> {
            &&& optional_parts(parts)->Some_0.len() == value@.len()
            &&& 0 <= i < value@.len() ==> optional_parts(parts)->Some_0[i] == value@[i]@
        },
{
}

/// A value is handed out exactly if it was found and judged valid; what is
/// wrong with finding it comes before what is wrong with it.
pub proof fn law_judged_values<T>(found: Result<T, Fault>, valid: Result<(), VotingError>)
    ensures
        checked(found, valid) is Ok <==> found is Ok && valid is Ok,
        checked(found, valid) is Ok ==> checked(found, valid) == found,
        found is Err ==> checked(found, valid) == found,
        found is Ok ==> (valid matches Err(error) ==> checked(found, valid) == Err::<T, Fault>(
            error@,
        )),
{
}

/// A lookup finds the row under its key, with what the table holds of it, and
/// nothing exactly if there is none.
pub proof fn law_lookups<R: Row>(
    found: Option<&R>,
    table: Map<R::Key, R::Data>,
    key: R::Key,
)
    requires
        looked_up(found, table, key),
    ensures
        found is Some <==> table.contains_key(key),
        found matches Some(row) ==> row.key() == key && row.data() == table[key],
{
}

/// New tables hold nothing.
pub proof fn law_new_tables_are_empty()
    ensures
        ({
            let tables = no_rows();
            &&& tables.rounds == Map::<RoundKey, RoundColumns>::empty()
            &&& tables.tree_states == Map::<RoundKey, TreeStateColumns>::empty()
            &&& tables.ballot_intents == Map::<IntentKey, IntentColumns>::empty()
            &&& tables.bundles == Map::<BundleKey, BundleColumns>::empty()
            &&& tables.proofs == Map::<BundleKey, ProofColumns>::empty()
            &&& tables.keystone_signatures == Map::<BundleKey, KeystoneColumns>::empty()
            &&& tables.witnesses == Map::<WitnessKey, WitnessColumns>::empty()
            &&& tables.imt_proofs == Map::<ImtKey, ImtColumns>::empty()
            &&& tables.votes == Map::<VoteKey, VoteColumns>::empty()
            &&& tables.share_delegations == Map::<ShareKey, ShareColumns>::empty()
        }),
{
}

/// A list stands for what its items stand for, in their order.
pub proof fn law_lists_keep_their_items(
    summaries: Vec<RoundSummary>,
    entries: Vec<VanTreeEntry>,
    witnesses: Vec<WitnessData>,
    signatures: Vec<KeystoneSignatureRecord>,
    shares: Vec<ShareDelegationRecord>,
    votes: Vec<VoteRecord>,
    fields: Vec<FieldElement>,
    i: int,
)
    ensures
        summaries.model().len() == summaries@.len(),
        0 <= i < summaries@.len() ==> summaries.model()[i] == summaries@[i].model(),
        entries.model().len() == entries@.len(),
        0 <= i < entries@.len() ==> entries.model()[i] == entries@[i].model(),
        witnesses.model().len() == witnesses@.len(),
        0 <= i < witnesses@.len() ==> witnesses.model()[i] == witnesses@[i].model(),
        signatures.model().len() == signatures@.len(),
        0 <= i < signatures@.len() ==> signatures.model()[i] == signatures@[i].model(),
        shares.model().len() == shares@.len(),
        0 <= i < shares@.len() ==> shares.model()[i] == shares@[i].model(),
        votes.model() == votes@,
        fields.model().len() == fields@.len(),
        0 <= i < fields@.len() ==> fields.model()[i] == fields@[i]@,
{
}

/// Lists of plain values stand for the values, in their order.
pub proof fn law_plain_lists_keep_their_items(
    blobs: Vec<Vec<u8>>,
    texts: Vec<String>,
    pairs: Vec<(Vec<u8>, Vec<u8>)>,
    notes: Seq<NoteInfo>,
    witnesses: Seq<WitnessData>,
    numbers: Vec<u64>,
    bytes: Vec<u8>,
    i: int,
)
    ensures
        blobs.model().len() == blobs@.len(),
        0 <= i < blobs@.len() ==> blobs.model()[i] == blobs@[i]@,
        parts_of(blobs@) == blobs.model(),
        texts.model().len() == texts@.len(),
        0 <= i < texts@.len() ==> texts.model()[i] == texts@[i]@,
        texts_of(texts@) == texts.model(),
        pairs.model().len() == pairs@.len(),
        0 <= i < pairs@.len() ==> pairs.model()[i] == (pairs@[i].0@, pairs@[i].1@),
        secrets_of(pairs@) == pairs.model(),
        notes_of(notes).len() == notes.len(),
        0 <= i < notes.len() ==> notes_of(notes)[i] == notes[i].model(),
        witnesses_of(witnesses).len() == witnesses.len(),
        0 <= i < witnesses.len() ==> witnesses_of(witnesses)[i] == witnesses[i].model(),
        numbers.model() == numbers@,
        bytes.model() == bytes@,
{
}

/// Plain values stand for themselves, optional ones for what they hold, and
/// pairs for their parts.
pub proof fn law_plain_values<A: Modeled, B: Modeled>(
    flag: bool,
    small: u32,
    large: u64,
    signed: i64,
    size: usize,
    text: String,
    network: Network,
    optional: Option<A>,
    pair: (A, B),
)
    ensures
        flag.model() == flag,
        small.model() == small,
        large.model() == large,
        signed.model() == signed,
        size.model() == size,
        text.model() == text@,
        network.model() == network,
        optional.model() is Some <==> optional is Some,
        optional matches Some(value) ==> optional.model() == Some(value.model()),
        pair.model() == (pair.0.model(), pair.1.model()),
{
}

/// The state of a round stands for its fields.
pub proof fn law_round_state_fields(state: RoundState)
    ensures
        state.model().round_id == state.round_id@,
        state.model().phase == state.phase,
        state.model().network == state.network,
        state.model().snapshot_height == state.snapshot_height,
        state.model().hotkey_address is Some <==> state.hotkey_address is Some,
        state.hotkey_address matches Some(text) ==> state.model().hotkey_address == Some(text@),
        state.model().delegated_weight == state.delegated_weight,
        state.model().proof_generated == state.proof_generated,
{
}

/// The summary of a round stands for its fields.
pub proof fn law_round_summary_fields(summary: RoundSummary)
    ensures
        summary.model().round_id == summary.round_id@,
        summary.model().wallet_id == summary.wallet_id@,
        summary.model().phase == summary.phase,
        summary.model().network == summary.network,
        summary.model().snapshot_height == summary.snapshot_height,
        summary.model().created_at == summary.created_at,
{
}

/// The parameters of a round stand for their fields.
pub proof fn law_round_params_fields(params: VotingRoundParams)
    ensures
        params.model().vote_round_id == params.vote_round_id@,
        params.model().snapshot_height == params.snapshot_height,
        params.model().ea_pk == params.ea_pk@,
        params.model().nc_root == params.nc_root@,
        params.model().nullifier_imt_root == params.nullifier_imt_root@,
{
}

/// A note stands for its fields.
pub proof fn law_note_fields(note: NoteInfo)
    ensures
        note.model().commitment == note.commitment@,
        note.model().nullifier == note.nullifier@,
        note.model().value == note.value,
        note.model().position == note.position,
        note.model().diversifier == note.diversifier@,
        note.model().rho == note.rho@,
        note.model().rseed == note.rseed@,
        note.model().scope == note.scope,
        note.model().ufvk_str == note.ufvk_str@,
{
}

/// A witness stands for its fields.
pub proof fn law_witness_fields(witness: WitnessData, i: int)
    ensures
        witness.model().note_commitment == witness.note_commitment@,
        witness.model().position == witness.position,
        witness.model().root == witness.root@,
        witness.model().auth_path.len() == witness.auth_path@.len(),
        0 <= i < witness.auth_path@.len() ==> witness.model().auth_path[i] == witness.auth_path@[i]@,
{
}

/// What the proof of a vote needs stands for its fields.
pub proof fn law_zkp2_fields(data: Zkp2DelegationData)
    ensures
        data.model().gov_comm_rand == data.gov_comm_rand@,
        data.model().total_note_value == data.total_note_value,
        data.model().address_index == data.address_index,
        data.model().ea_pk == data.ea_pk@,
        data.model().voting_round_id == data.voting_round_id@,
{
}

/// An entry for vote tree sync stands for its fields.
pub proof fn law_van_tree_entry_fields(entry: VanTreeEntry)
    ensures
        entry.model().bundle_index == entry.bundle_index,
        entry.model().position == entry.position,
        entry.model().expected_delegation_van is Some <==> entry.expected_delegation_van is Some,
        entry.expected_delegation_van matches Some(van)
            ==> entry.model().expected_delegation_van == Some(van@),
{
}

/// What is submitted for a delegation stands for its fields.
pub proof fn law_submission_fields(fields: DelegationDbFields, i: int)
    ensures
        fields.model().proof == fields.proof@,
        fields.model().rk == fields.rk@,
        fields.model().nf_signed == fields.nf_signed@,
        fields.model().cmx_new == fields.cmx_new@,
        fields.model().gov_comm == fields.gov_comm@,
        fields.model().gov_nullifiers.len() == fields.gov_nullifiers@.len(),
        0 <= i < fields.gov_nullifiers@.len() ==> fields.model().gov_nullifiers[i] == fields.gov_nullifiers@[i]@,
        fields.model().alpha == fields.alpha@,
        fields.model().vote_round_id == fields.vote_round_id@,
        fields.model().tx1_effects == fields.tx1_effects@,
{
}

/// A Keystone signature stands for its fields.
pub proof fn law_signature_fields(record: KeystoneSignatureRecord)
    ensures
        record.model().bundle_index == record.bundle_index,
        record.model().sig == record.sig@,
        record.model().sighash == record.sighash@,
        record.model().rk == record.rk@,
{
}

/// A share stands for its fields.
pub proof fn law_share_fields(record: ShareDelegationRecord, i: int)
    ensures
        record.model().round_id == record.round_id@,
        record.model().bundle_index == record.bundle_index,
        record.model().proposal_id == record.proposal_id,
        record.model().share_index == record.share_index,
        record.model().sent_to_urls.len() == record.sent_to_urls@.len(),
        0 <= i < record.sent_to_urls@.len() ==> record.model().sent_to_urls[i] == record.sent_to_urls@[i]@,
        record.model().nullifier == record.nullifier@,
        record.model().confirmed == record.confirmed,
        record.model().submit_at == record.submit_at,
        record.model().created_at == record.created_at,
{
}

/// A non-membership proof stands for its fields.
pub proof fn law_imt_proof_fields(proof: ImtProofData, i: int, j: int)
    requires
        0 <= i < 3,
        0 <= j < 29,
    ensures
        proof.model().root == proof.root@,
        proof.model().nf_bounds.len() == 3,
        proof.model().nf_bounds[i] == proof.nf_bounds@[i]@,
        proof.model().leaf_pos == proof.leaf_pos,
        proof.model().path.len() == 29,
        proof.model().path[j] == proof.path@[j]@,
{
}

} // verus!
