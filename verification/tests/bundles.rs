use zcash_voting::storage::field::{FieldElement, ImtProofData};
use zcash_voting::storage::notes;
use zcash_voting::storage::queries;
use zcash_voting::storage::rows::BundleRow;
use zcash_voting::storage::tables::VotingTables;
use zcash_voting::types::{
    KeystoneSignatureRecord, Network, NoteInfo, VotingError, VotingRoundParams, WitnessData,
};

const W: &str = "wallet";
const R: &str = "round";
const NO_ROW: &str = "no rows returned by a query that expected to return at least one row";
const NO_PARENT: &str =
    "error returned from database: (code: 787) FOREIGN KEY constraint failed";

fn invalid(message: &str) -> VotingError {
    VotingError::InvalidInput {
        message: message.to_string(),
    }
}

fn internal(message: &str) -> VotingError {
    VotingError::Internal {
        message: message.to_string(),
    }
}

fn with_round() -> VotingTables {
    let mut tables = VotingTables::new();
    let params = VotingRoundParams {
        vote_round_id: R.to_string(),
        snapshot_height: 1,
        ea_pk: vec![9; 32],
        nc_root: vec![],
        nullifier_imt_root: vec![],
    };
    queries::insert_round(&mut tables, W, Network::Mainnet, &params, None, 1).unwrap();
    tables
}

fn with_bundle() -> VotingTables {
    let mut tables = with_round();
    queries::insert_bundle(&mut tables, R, W, 0, &[5, 3]).unwrap();
    tables
}

fn note(position: u64, byte: u8) -> NoteInfo {
    NoteInfo {
        commitment: vec![byte; 32],
        nullifier: vec![2; 32],
        value: 1000,
        position,
        diversifier: vec![3; 11],
        rho: vec![4; 32],
        rseed: vec![5; 32],
        scope: 1,
        ufvk_str: "uview1é".to_string(),
    }
}

fn blank(bundle_index: i64) -> BundleRow {
    BundleRow {
        round_id: R.to_string(),
        wallet_id: W.to_string(),
        bundle_index,
        note_positions_blob: None,
        note_identity_hashes_blob: None,
        van_comm_rand: None,
        dummy_nullifiers: None,
        rho_signed: None,
        padded_note_data: None,
        nf_signed: None,
        cmx_new: None,
        alpha: None,
        rseed_signed: None,
        rseed_output: None,
        gov_comm: None,
        total_note_value: None,
        address_index: None,
        rk: None,
        gov_nullifiers_blob: None,
        padded_note_secrets: None,
        pczt_sighash: None,
        tx1_effects: None,
        van_leaf_position: None,
        delegation_tx_hash: None,
    }
}

fn imported(bundle_index: i64) -> BundleRow {
    BundleRow {
        van_comm_rand: Some(vec![1; 32]),
        gov_comm: Some(vec![2; 32]),
        total_note_value: Some(10),
        address_index: Some(0),
        delegation_tx_hash: Some("tx".to_string()),
        ..blank(bundle_index)
    }
}

fn framed(out: &mut Vec<u8>, value: &[u8]) {
    out.extend_from_slice(&(value.len() as u64).to_le_bytes());
    out.extend_from_slice(value);
}

fn identity(note: &NoteInfo) -> Vec<u8> {
    let mut preimage = b"zcash-voting-note-identity-v1".to_vec();
    preimage.extend_from_slice(&note.position.to_le_bytes());
    preimage.extend_from_slice(&note.value.to_le_bytes());
    preimage.extend_from_slice(&note.scope.to_le_bytes());
    framed(&mut preimage, &note.commitment);
    framed(&mut preimage, &note.nullifier);
    framed(&mut preimage, &note.diversifier);
    framed(&mut preimage, &note.rho);
    framed(&mut preimage, &note.rseed);
    framed(&mut preimage, note.ufvk_str.as_bytes());
    blake2b_simd::Params::new()
        .hash_length(32)
        .hash(&preimage)
        .as_bytes()
        .to_vec()
}

fn words(bytes: &[u8]) -> Vec<Vec<u8>> {
    bytes.iter().map(|byte| vec![*byte; 32]).collect()
}

fn set_up(tables: &mut VotingTables, sighash: u8, effects: u8) -> Result<(), VotingError> {
    queries::store_delegation_data(
        tables,
        R,
        W,
        0,
        &[1; 32],
        &words(&[2, 3]),
        &[4; 32],
        &words(&[5]),
        &[6; 32],
        &[7; 32],
        &[8; 32],
        &[9; 32],
        &[10; 32],
        &[11; 32],
        1234,
        3,
        &[(vec![12; 32], vec![13; 32])],
        &[sighash; 32],
        &[effects; 8],
        Ok(()),
    )
}

#[test]
fn bundles_are_stored_once_and_in_a_round() {
    let mut tables = with_bundle();
    assert_eq!(
        queries::insert_bundle(&mut tables, R, W, 0, &[1]),
        Err(internal(
            "failed to insert bundle: error returned from database: (code: 1555) UNIQUE constraint failed: voting_bundles.round_id, voting_bundles.wallet_id, voting_bundles.bundle_index"
        ))
    );
    assert_eq!(
        queries::insert_bundle(&mut tables, "none", W, 0, &[1]),
        Err(internal(&format!("failed to insert bundle: {NO_PARENT}")))
    );
    assert_eq!(queries::get_bundle_count(&tables, R, W), Ok(1));
    assert_eq!(queries::get_bundle_count(&tables, R, "other"), Ok(0));
}

#[test]
fn note_positions_are_read_back() {
    let mut tables = with_bundle();
    let positions = tables.bundles.rows()[0].note_positions_blob.clone().unwrap();
    assert_eq!(positions, vec![5, 0, 0, 0, 0, 0, 0, 0, 3, 0, 0, 0, 0, 0, 0, 0]);
    assert_eq!(queries::load_bundle_note_positions(&tables, R, W, 0), Ok(vec![5, 3]));
    queries::insert_bundle(&mut tables, R, W, 1, &[u64::MAX, 0x0102_0304_0506_0708]).unwrap();
    assert_eq!(
        queries::load_bundle_note_positions(&tables, R, W, 1),
        Ok(vec![u64::MAX, 0x0102_0304_0506_0708])
    );
    assert_eq!(
        queries::load_bundle_note_positions(&tables, R, W, 9),
        Err(invalid(&format!("bundle not found: round=round, bundle=9 ({NO_ROW})")))
    );
    tables.bundles.put(BundleRow {
        note_positions_blob: Some(vec![0; 9]),
        ..blank(2)
    });
    assert_eq!(
        queries::load_bundle_note_positions(&tables, R, W, 2),
        Err(internal(
            "corrupt note_positions_blob: length 9 is not a multiple of 8"
        ))
    );
}

#[test]
fn bundles_require_their_notes() {
    let mut tables = with_bundle();
    let notes = [note(5, 1), note(3, 1)];
    queries::require_bundle_notes(&tables, R, W, 0, &notes).unwrap();
    assert_eq!(
        queries::require_bundle_notes(&tables, R, W, 0, &[note(3, 1), note(5, 1)]),
        Err(invalid(
            "bundle_index 0 notes do not match persisted setup: stored positions [5, 3], requested positions [3, 5]"
        ))
    );
    assert_eq!(
        queries::require_bundle_notes(&tables, R, W, 0, &[]),
        Err(invalid(
            "bundle_index 0 notes do not match persisted setup: stored positions [5, 3], requested positions []"
        ))
    );

    queries::insert_bundle_notes(&mut tables, R, W, 1, &notes).unwrap();
    queries::require_bundle_notes(&tables, R, W, 1, &notes).unwrap();
    assert_eq!(
        queries::require_bundle_notes(&tables, R, W, 1, &[note(5, 1), note(3, 2)]),
        Err(invalid("bundle_index 1 note identity mismatch at index 1"))
    );

    let row = tables
        .bundles
        .rows()
        .iter()
        .find(|row| row.bundle_index == 1)
        .unwrap()
        .clone();
    let mut expected = identity(&notes[0]);
    expected.extend(identity(&notes[1]));
    assert_eq!(row.note_identity_hashes_blob, Some(expected));

    tables.bundles.put(BundleRow {
        note_identity_hashes_blob: Some(vec![0; 32]),
        ..row.clone()
    });
    assert_eq!(
        queries::require_bundle_notes(&tables, R, W, 1, &notes),
        Err(invalid(
            "bundle_index 1 note identity count mismatch: stored 1, requested 2"
        ))
    );
    tables.bundles.put(BundleRow {
        note_identity_hashes_blob: Some(vec![0; 33]),
        ..row
    });
    assert_eq!(
        queries::require_bundle_notes(&tables, R, W, 1, &notes),
        Err(internal(
            "corrupt note_identity_hashes_blob: length 33 is not a multiple of 32"
        ))
    );
}

#[test]
fn delegation_data_is_read_back() {
    let mut tables = with_bundle();
    assert_eq!(queries::load_nf_signed(&tables, R, W, 0), Ok(vec![]));
    assert_eq!(
        queries::load_padded_note_secrets(&tables, R, W, 0),
        Err(invalid("no padded_note_secrets for round=round, bundle=0"))
    );
    assert_eq!(queries::load_padded_note_secrets_optional(&tables, R, W, 0), Ok(None));
    set_up(&mut tables, 14, 15).unwrap();
    assert_eq!(queries::load_van_comm_rand(&tables, R, W, 0), Ok(vec![1; 32]));
    assert_eq!(queries::load_dummy_nullifiers(&tables, R, W, 0), Ok(words(&[2, 3])));
    assert_eq!(queries::load_rho_signed(&tables, R, W, 0), Ok(vec![4; 32]));
    assert_eq!(queries::load_padded_cmx(&tables, R, W, 0), Ok(words(&[5])));
    assert_eq!(queries::load_nf_signed(&tables, R, W, 0), Ok(vec![6; 32]));
    assert_eq!(queries::load_cmx_new(&tables, R, W, 0), Ok(vec![7; 32]));
    assert_eq!(queries::load_alpha(&tables, R, W, 0), Ok(vec![8; 32]));
    assert_eq!(queries::load_rseed_signed(&tables, R, W, 0), Ok(vec![9; 32]));
    assert_eq!(queries::load_rseed_output(&tables, R, W, 0), Ok(vec![10; 32]));
    assert_eq!(queries::load_pczt_sighash(&tables, R, W, 0), Ok(vec![14; 32]));
    assert_eq!(queries::stored_tx1_effects(&tables, R, W, 0), Ok(vec![15; 8]));
    assert_eq!(queries::load_tx1_effects(&tables, R, W, 0, Ok(())), Ok(vec![15; 8]));
    assert_eq!(
        queries::load_tx1_effects(&tables, R, W, 0, Err(invalid("bad"))),
        Err(invalid("bad"))
    );
    assert_eq!(
        queries::load_padded_note_secrets(&tables, R, W, 0),
        Ok(vec![(vec![12; 32], vec![13; 32])])
    );
    let data = queries::load_zkp2_inputs(&tables, R, W, 0).unwrap();
    assert_eq!(data.gov_comm_rand, vec![1; 32]);
    assert_eq!((data.total_note_value, data.address_index), (1234, 3));
}

#[test]
fn missing_bundles_are_named() {
    let tables = with_round();
    assert_eq!(
        queries::load_alpha(&tables, R, W, 7),
        Err(invalid(&format!("no alpha for round=round, bundle=7 ({NO_ROW})")))
    );
    assert_eq!(
        queries::load_padded_cmx(&tables, R, W, 7),
        Err(invalid(&format!(
            "no padded_note_data for round=round, bundle=7 ({NO_ROW})"
        )))
    );
    assert_eq!(
        queries::load_padded_note_secrets_optional(&tables, R, W, 7),
        Err(invalid(&format!(
            "no padded_note_secrets for round=round, bundle=7 ({NO_ROW})"
        )))
    );
}

#[test]
fn corrupt_blobs_are_reported() {
    let mut tables = with_round();
    tables.bundles.put(BundleRow {
        dummy_nullifiers: Some(vec![0; 31]),
        padded_note_data: Some(vec![0; 33]),
        padded_note_secrets: Some(vec![0; 65]),
        ..blank(0)
    });
    assert_eq!(
        queries::load_dummy_nullifiers(&tables, R, W, 0),
        Err(internal(
            "corrupt dummy_nullifiers blob: length 31 is not a multiple of 32"
        ))
    );
    assert_eq!(
        queries::load_padded_cmx(&tables, R, W, 0),
        Err(internal(
            "corrupt padded_note_data blob: length 33 is not a multiple of 32"
        ))
    );
    assert_eq!(
        queries::load_padded_note_secrets(&tables, R, W, 0),
        Err(internal(
            "corrupt padded_note_secrets blob: length 65 is not a multiple of 64"
        ))
    );
}

#[test]
fn setup_is_not_overwritten() {
    let mut tables = with_bundle();
    set_up(&mut tables, 14, 15).unwrap();
    set_up(&mut tables, 14, 15).unwrap();
    assert_eq!(
        set_up(&mut tables, 99, 15),
        Err(invalid("refusing to overwrite pczt_sighash for round=round, bundle=0"))
    );
    assert_eq!(
        set_up(&mut tables, 14, 99),
        Err(invalid("refusing to overwrite tx1_effects for round=round, bundle=0"))
    );
    let mut other = with_bundle();
    queries::store_padded_note_secrets_if_absent(
        &mut other,
        R,
        W,
        0,
        &[(vec![1; 32], vec![2; 32])],
    )
    .unwrap();
    assert_eq!(
        set_up(&mut other, 14, 15),
        Err(invalid(
            "refusing to overwrite padded_note_secrets for round=round, bundle=0"
        ))
    );
    let mut none = with_round();
    assert_eq!(
        set_up(&mut none, 14, 15),
        Err(invalid("bundle not found: round=round, bundle=0"))
    );
}

#[test]
fn first_padding_secrets_stay() {
    let mut tables = with_bundle();
    let first = vec![(vec![1; 32], vec![2; 32]), (vec![3; 32], vec![4; 32])];
    queries::store_padded_note_secrets_if_absent(&mut tables, R, W, 0, &first).unwrap();
    queries::store_padded_note_secrets_if_absent(&mut tables, R, W, 0, &[]).unwrap();
    assert_eq!(queries::load_padded_note_secrets(&tables, R, W, 0), Ok(first));
    assert_eq!(
        queries::store_padded_note_secrets_if_absent(&mut tables, R, W, 7, &[]),
        Err(invalid("bundle not found: round=round, bundle=7"))
    );
}

#[test]
fn cleared_setup_runs_again() {
    let mut tables = with_bundle();
    set_up(&mut tables, 14, 15).unwrap();
    queries::clear_unsigned_delegation_setup_fields(&mut tables, R, W).unwrap();
    assert_eq!(queries::load_alpha(&tables, R, W, 0), Ok(vec![]));
    assert_eq!(queries::load_bundle_note_positions(&tables, R, W, 0), Ok(vec![5, 3]));
    set_up(&mut tables, 99, 98).unwrap();

    queries::store_keystone_signature(&mut tables, R, W, 0, &[1], &[2], &[3], 4).unwrap();
    queries::clear_unsigned_delegation_setup_fields(&mut tables, R, W).unwrap();
    assert_eq!(queries::load_pczt_sighash(&tables, R, W, 0), Ok(vec![99; 32]));
}

#[test]
fn imported_and_submitted_setup_is_spared() {
    let mut tables = with_round();
    tables.bundles.put(imported(0));
    queries::insert_bundle(&mut tables, R, W, 1, &[1]).unwrap();
    queries::store_delegation_tx_hash(&mut tables, R, W, 1, "tx1").unwrap();
    let before: Vec<BundleRow> = tables.bundles.rows().clone();
    queries::clear_unsigned_delegation_setup_fields(&mut tables, R, W).unwrap();
    assert_eq!(tables.bundles.rows(), &before);
}

#[test]
fn recovery_state_is_cleared() {
    let mut tables = with_round();
    tables.bundles.put(imported(0));
    queries::insert_bundle(&mut tables, R, W, 1, &[1]).unwrap();
    queries::insert_bundle(&mut tables, R, W, 2, &[2]).unwrap();
    queries::store_delegation_tx_hash(&mut tables, R, W, 1, "tx1").unwrap();
    queries::store_delegation_tx_hash(&mut tables, R, W, 2, "tx2").unwrap();
    queries::store_van_position(&mut tables, R, W, 2, 8).unwrap();
    queries::store_keystone_signature(&mut tables, R, W, 1, &[1], &[2], &[3], 4).unwrap();
    queries::store_vote(&mut tables, R, W, 1, 1, 1, &[1], 1).unwrap();
    queries::record_vote_submission(&mut tables, R, W, 1, 1, "vote").unwrap();
    queries::record_share_delegation(&mut tables, R, W, 1, 1, 0, &[], &[1], 0, 0).unwrap();
    queries::clear_recovery_state(&mut tables, R, W).unwrap();
    assert_eq!(queries::get_delegation_tx_hash(&tables, R, W, 0), Ok(Some("tx".to_string())));
    assert_eq!(queries::get_delegation_tx_hash(&tables, R, W, 1), Ok(None));
    assert_eq!(queries::get_delegation_tx_hash(&tables, R, W, 2), Ok(Some("tx2".to_string())));
    assert_eq!(queries::get_vote_tx_hash(&tables, R, W, 1, 1), Ok(None));
    assert_eq!(queries::get_keystone_signatures(&tables, R, W), Ok(vec![]));
    assert_eq!(queries::get_share_delegations(&tables, R, W), Ok(vec![]));
}

#[test]
fn keystone_signatures_are_listed() {
    let mut tables = with_round();
    for i in [1, 0] {
        queries::insert_bundle(&mut tables, R, W, i, &[]).unwrap();
        queries::store_keystone_signature(&mut tables, R, W, i, &[i as u8], &[2], &[3], 4).unwrap();
    }
    let record = |bundle_index: u32| KeystoneSignatureRecord {
        bundle_index,
        sig: vec![bundle_index as u8],
        sighash: vec![2],
        rk: vec![3],
    };
    assert_eq!(
        queries::get_keystone_signatures(&tables, R, W),
        Ok(vec![record(0), record(1)])
    );
    assert_eq!(
        queries::store_keystone_signature(&mut tables, R, W, 7, &[1], &[2], &[3], 4),
        Err(internal(&format!("failed to store keystone signature: {NO_PARENT}")))
    );
}

#[test]
fn delegation_transactions_are_final() {
    let mut tables = with_bundle();
    assert_eq!(queries::get_delegation_tx_hash(&tables, R, W, 0), Ok(None));
    queries::store_delegation_tx_hash(&mut tables, R, W, 0, "tx").unwrap();
    queries::store_delegation_tx_hash(&mut tables, R, W, 0, "tx").unwrap();
    assert_eq!(
        queries::store_delegation_tx_hash(&mut tables, R, W, 0, "other"),
        Err(invalid(
            "delegation tx hash already recorded for round=round, wallet=wallet, bundle=0"
        ))
    );
    assert_eq!(queries::get_delegation_tx_hash(&tables, R, W, 0), Ok(Some("tx".to_string())));
    assert_eq!(
        queries::store_delegation_tx_hash(&mut tables, R, W, 9, "tx"),
        Err(invalid("no bundle found for round=round, wallet=wallet, bundle=9"))
    );
    assert_eq!(
        queries::get_delegation_tx_hash(&tables, R, W, 9),
        Err(internal(&format!("failed to get delegation tx hash: {NO_ROW}")))
    );
}

#[test]
fn van_positions_are_read_back() {
    let mut tables = with_bundle();
    assert_eq!(
        queries::load_van_position(&tables, R, W, 0),
        Err(invalid("van_leaf_position not yet set for round=round, bundle=0"))
    );
    queries::store_van_position(&mut tables, R, W, 0, u32::MAX).unwrap();
    assert_eq!(queries::load_van_position(&tables, R, W, 0), Ok(u32::MAX));
    assert_eq!(
        queries::load_van_position(&tables, R, W, 9),
        Err(invalid(&format!(
            "no van_leaf_position for round=round, bundle=9 ({NO_ROW})"
        )))
    );
    assert_eq!(
        queries::store_van_position(&mut tables, R, W, 9, 1),
        Err(invalid("bundle not found: round=round, bundle=9"))
    );
}

#[test]
fn imported_rounds_are_whole() {
    let mut tables = with_round();
    tables.bundles.put(imported(0));
    tables.bundles.put(imported(1));
    queries::store_van_position(&mut tables, R, W, 0, 1).unwrap();
    assert_eq!(
        queries::require_capability_delegations_confirmed(&tables, R, W),
        Err(invalid(
            "imported capability round round cannot create votes until every delegation is confirmed; bundle 1 is still unconfirmed"
        ))
    );
    assert!(!queries::get_round_state(&tables, R, W).unwrap().proof_generated);
    queries::store_van_position(&mut tables, R, W, 1, 2).unwrap();
    queries::require_capability_delegations_confirmed(&tables, R, W).unwrap();
    assert!(queries::get_round_state(&tables, R, W).unwrap().proof_generated);
    assert_eq!(
        queries::delete_bundles_from(&mut tables, R, W, 1),
        Err(invalid(
            "imported capability round round cannot delete bundles independently; clear the round before importing a complete replacement capability"
        ))
    );
}

#[test]
fn local_bundles_are_deleted() {
    let mut tables = with_round();
    for i in 0..3 {
        queries::insert_bundle(&mut tables, R, W, i, &[]).unwrap();
        queries::store_proof(&mut tables, R, W, i, &[1], 1).unwrap();
    }
    queries::require_capability_delegations_confirmed(&tables, R, W).unwrap();
    assert_eq!(queries::delete_bundles_from(&mut tables, R, W, 1), Ok(2));
    assert_eq!(queries::get_bundle_count(&tables, R, W), Ok(1));
    assert_eq!(tables.proofs.rows().len(), 1);
    assert_eq!(queries::delete_bundles_from(&mut tables, R, W, 1), Ok(0));
}

#[test]
fn setup_without_effects_judges_and_compares_none() {
    let mut tables = with_bundle();
    let set_up_with = |tables: &mut VotingTables, effects: Option<&[u8]>, valid| {
        queries::store_delegation_data_inner(
            tables,
            R,
            W,
            0,
            &[1; 32],
            &[],
            &[4; 32],
            &[],
            &[6; 32],
            &[7; 32],
            &[8; 32],
            &[9; 32],
            &[10; 32],
            &[11; 32],
            u64::MAX,
            3,
            &[],
            &[14; 32],
            effects,
            valid,
            None,
            None,
        )
    };
    let bad = || Err(invalid("bad"));
    assert_eq!(set_up_with(&mut tables, Some(&[15; 8]), bad()), bad());
    assert_eq!(set_up_with(&mut tables, None, bad()), Ok(()));
    assert_eq!(tables.bundles.rows()[0].tx1_effects, None);
    assert_eq!(set_up_with(&mut tables, Some(&[15; 8]), Ok(())), Ok(()));
    assert_eq!(set_up_with(&mut tables, None, bad()), Ok(()));
    assert_eq!(tables.bundles.rows()[0].tx1_effects, Some(vec![15; 8]));
    assert_eq!(
        set_up_with(&mut tables, Some(&[16; 8]), Ok(())),
        Err(invalid("refusing to overwrite tx1_effects for round=round, bundle=0"))
    );
    let inputs = queries::load_zkp2_inputs(&tables, R, W, 0).unwrap();
    assert_eq!(inputs.total_note_value, u64::MAX);
    assert_eq!(inputs.address_index, 3);
}

#[test]
fn blobs_that_are_read_are_written_again() {
    let blob: Vec<u8> = (0..128).collect();
    let positions = notes::decode_note_positions_blob(&blob).unwrap();
    assert_eq!(positions[0], 0x0706_0504_0302_0100);
    assert_eq!(notes::note_positions_blob(&positions), blob);
    let secrets = notes::decode_padded_note_secrets(&blob).unwrap();
    assert_eq!(secrets.len(), 2);
    assert_eq!(notes::encode_padded_note_secrets(&secrets), blob);
}

#[test]
fn proof_results_reproduce_the_setup() {
    let mut tables = with_bundle();
    queries::store_delegation_data_with_pczt_fields(
        &mut tables,
        R,
        W,
        0,
        &[1; 32],
        &[],
        &[4; 32],
        &[],
        &[6; 32],
        &[7; 32],
        &[8; 32],
        &[9; 32],
        &[10; 32],
        &[11; 32],
        1,
        0,
        &[],
        &[14; 32],
        &[15; 8],
        Ok(()),
        &[20; 32],
        &words(&[21, 22]),
    )
    .unwrap();
    let mismatch = |field: &str| {
        Err(invalid(&format!(
            "delegation proof result {field} does not match stored PCZT data"
        )))
    };
    let nullifiers = words(&[21, 22]);
    let store = queries::store_proof_result_fields;
    assert_eq!(
        store(&mut tables, R, W, 0, &[0; 32], &nullifiers, &[6; 32], &[7; 32]),
        mismatch("rk")
    );
    assert_eq!(
        store(&mut tables, R, W, 0, &[20; 32], &words(&[21]), &[6; 32], &[7; 32]),
        mismatch("gov_nullifiers")
    );
    assert_eq!(
        store(&mut tables, R, W, 0, &[20; 32], &nullifiers, &[0; 32], &[7; 32]),
        mismatch("nf_signed")
    );
    assert_eq!(
        store(&mut tables, R, W, 0, &[20; 32], &nullifiers, &[6; 32], &[0; 32]),
        mismatch("cmx_new")
    );
    let store_van = queries::store_proof_result_fields_with_van_comm;
    assert_eq!(
        store_van(&mut tables, R, W, 0, &[20; 32], &nullifiers, &[6; 32], &[7; 32], &[0; 32]),
        mismatch("van_comm")
    );
    store_van(&mut tables, R, W, 0, &[20; 32], &nullifiers, &[6; 32], &[7; 32], &[11; 32]).unwrap();
    store(&mut tables, R, W, 0, &[20; 32], &nullifiers, &[6; 32], &[7; 32]).unwrap();
    assert_eq!(
        store(&mut tables, R, W, 9, &[20; 32], &nullifiers, &[6; 32], &[7; 32]),
        Err(invalid(&format!("bundle not found: round=round, bundle=9 ({NO_ROW})")))
    );

    let unread = Err(invalid(&format!(
        "failed to load delegation submission data for round=round, bundle=0 ({NO_ROW})"
    )));
    assert_eq!(queries::load_delegation_submission_data(&tables, R, W, 0, Ok(())), unread);
    queries::store_proof(&mut tables, R, W, 0, &[30; 4], 1).unwrap();
    let fields = queries::load_delegation_submission_data(&tables, R, W, 0, Ok(())).unwrap();
    assert_eq!(fields.proof, vec![30; 4]);
    assert_eq!(fields.rk, vec![20; 32]);
    assert_eq!(fields.gov_comm, vec![11; 32]);
    assert_eq!(fields.gov_nullifiers, nullifiers);
    assert_eq!(fields.vote_round_id, R);
    assert_eq!(fields.tx1_effects, vec![15; 8]);
    assert_eq!(
        queries::load_delegation_submission_data(&tables, R, W, 0, Err(invalid("bad"))),
        Err(invalid("bad"))
    );
    let row = tables.bundles.rows()[0].clone();
    tables.bundles.put(BundleRow {
        gov_nullifiers_blob: Some(vec![0; 33]),
        ..row
    });
    assert_eq!(
        queries::load_delegation_submission_data(&tables, R, W, 0, Ok(())),
        Err(internal(
            "corrupt gov_nullifiers_blob: length 33 is not a multiple of 32"
        ))
    );
}

#[test]
fn proofs_keep_their_first_time() {
    let mut tables = with_bundle();
    queries::store_proof(&mut tables, R, W, 0, &[1], 10).unwrap();
    queries::store_proof(&mut tables, R, W, 0, &[2], 20).unwrap();
    let row = &tables.proofs.rows()[0];
    assert_eq!((row.proof.clone(), row.success, row.created_at), (vec![2], 1, 10));
    assert_eq!(
        queries::store_proof(&mut tables, R, W, 9, &[1], 1),
        Err(internal(&format!("failed to store proof: {NO_PARENT}")))
    );
}

fn small(n: u8) -> FieldElement {
    let mut repr = [0; 32];
    repr[0] = n;
    FieldElement::from_repr(repr).unwrap()
}

const MODULUS_LESS_ONE: [u8; 32] = [
    0x00, 0x00, 0x00, 0x00, 0xed, 0x30, 0x2d, 0x99, 0x1b, 0xf9, 0x4c, 0x09, 0xfc, 0x98, 0x46, 0x22,
    0, 0, 0, 0, 0, 0, 0, 0, 0, 0, 0, 0, 0, 0, 0, 0x40,
];

#[test]
fn field_elements_are_below_the_modulus() {
    let largest = FieldElement::from_repr(MODULUS_LESS_ONE).unwrap();
    assert_eq!(largest.to_repr(), MODULUS_LESS_ONE);
    let mut modulus = MODULUS_LESS_ONE;
    modulus[0] = 1;
    assert!(FieldElement::from_repr(modulus).is_none());
    assert!(FieldElement::from_repr([0xff; 32]).is_none());
    assert_eq!(small(7).to_repr()[0], 7);
}

#[test]
fn non_membership_proofs_are_read_back() {
    let mut tables = with_bundle();
    let mut path = [small(0); 29];
    for i in 0..29 {
        path[i] = small(i as u8 + 1);
    }
    let proof = ImtProofData {
        root: FieldElement::from_repr(MODULUS_LESS_ONE).unwrap(),
        nf_bounds: [small(1), small(2), small(3)],
        leaf_pos: u32::MAX,
        path,
    };
    let load = queries::load_imt_proof;
    assert_eq!(load(&tables, R, W, 0, &[1; 32], &MODULUS_LESS_ONE), Ok(None));
    queries::store_imt_proof(&mut tables, R, W, 0, &[1; 32], &proof, 1).unwrap();
    assert_eq!(load(&tables, R, W, 0, &[1; 32], &MODULUS_LESS_ONE), Ok(Some(proof)));
    assert_eq!(load(&tables, R, W, 0, &[1; 32], &[0; 32]), Ok(None));
    assert_eq!(load(&tables, R, W, 0, &[2; 32], &MODULUS_LESS_ONE), Ok(None));
    assert_eq!(
        queries::store_imt_proof(&mut tables, R, W, 9, &[1; 32], &proof, 1),
        Err(internal(&format!(
            "failed to store IMT proof for bundle 9: {NO_PARENT}"
        )))
    );

    let row = tables.imt_proofs.rows()[0].clone();
    let mut corrupt = row.clone();
    corrupt.root = vec![0xff; 32];
    tables.imt_proofs.put(corrupt);
    assert_eq!(
        load(&tables, R, W, 0, &[1; 32], &[0xff; 32]),
        Err(internal("imt_proof.root is not a valid Pallas field element"))
    );
    let mut corrupt = row.clone();
    corrupt.nf_bounds[63] = 0xff;
    tables.imt_proofs.put(corrupt);
    assert_eq!(
        load(&tables, R, W, 0, &[1; 32], &MODULUS_LESS_ONE),
        Err(internal(
            "imt_proof.nf_bounds[1] is not a valid Pallas field element"
        ))
    );
    let mut corrupt = row.clone();
    corrupt.leaf_pos = -4;
    tables.imt_proofs.put(corrupt);
    assert_eq!(
        load(&tables, R, W, 0, &[1; 32], &MODULUS_LESS_ONE),
        Err(internal("invalid IMT proof leaf_pos -4"))
    );
    let mut corrupt = row;
    corrupt.path.pop();
    tables.imt_proofs.put(corrupt);
    assert_eq!(
        load(&tables, R, W, 0, &[1; 32], &MODULUS_LESS_ONE),
        Err(internal("imt_proof.path must be 928 bytes, got 927"))
    );
}

#[test]
fn van_tree_entries_are_loaded() {
    let mut tables = with_round();
    let mut van = [0; 32];
    van[0] = 9;
    for i in [2, 0, 1] {
        tables.bundles.put(BundleRow {
            note_positions_blob: Some(vec![]),
            gov_comm: Some(van.to_vec()),
            van_leaf_position: if i == 1 { None } else { Some(10 + i) },
            ..blank(i)
        });
    }
    queries::store_vote(&mut tables, R, W, 2, 1, 1, &[1], 1).unwrap();
    queries::record_vote_submission(&mut tables, R, W, 2, 1, "tx").unwrap();
    let entries = queries::load_van_tree_entries(&tables, R, W).unwrap();
    assert_eq!(entries.len(), 2);
    assert_eq!((entries[0].bundle_index, entries[0].position), (0, 10));
    assert_eq!(entries[0].expected_delegation_van, Some(small(9)));
    assert_eq!((entries[1].bundle_index, entries[1].position), (2, 12));
    assert_eq!(entries[1].expected_delegation_van, None);

    let cases = [
        (
            BundleRow { van_leaf_position: Some(1), ..blank(3) },
            "confirmed delegation bundle 3 is missing its VAN commitment",
        ),
        (
            BundleRow { van_leaf_position: Some(-1), ..blank(3) },
            "stored VAN position for bundle 3 does not fit in u32",
        ),
        (
            BundleRow {
                van_leaf_position: Some(1),
                gov_comm: Some(vec![1; 31]),
                ..blank(3)
            },
            "bundle 3 VAN commitment must be 32 bytes, got 31",
        ),
        (
            BundleRow { van_leaf_position: Some(1), ..blank(-3) },
            "stored VAN bundle index does not fit in u32",
        ),
    ];
    for (row, message) in cases {
        let mut tables = with_round();
        tables.bundles.put(row);
        assert!(matches!(
            queries::load_van_tree_entries(&tables, R, W),
            Err(error) if error == internal(message)
        ));
    }
}

fn witness(position: u64, byte: u8) -> WitnessData {
    WitnessData {
        note_commitment: vec![byte; 32],
        position,
        root: vec![byte + 1; 32],
        auth_path: (0..32).map(|level| vec![level; 32]).collect(),
    }
}

#[test]
fn witnesses_are_replaced_and_read_back() {
    let mut tables = with_bundle();
    assert_eq!(queries::has_witnesses(&tables, R, W, 0), Ok(false));
    let witnesses = [witness(5, 1), witness(3, 2)];
    queries::replace_bundle_witnesses(&mut tables, R, W, 0, &witnesses, 1).unwrap();
    assert_eq!(queries::has_witnesses(&tables, R, W, 0), Ok(true));
    assert_eq!(queries::witness_count(&tables, R, W, 0), Ok(2));
    assert_eq!(
        queries::load_witnesses(&tables, R, W, 0),
        Ok(vec![witness(3, 2), witness(5, 1)])
    );
    assert_eq!(
        queries::replace_bundle_witnesses(&mut tables, R, W, 0, &[witness(9, 1), witness(4, 1)], 1),
        Err(invalid(
            "witness positions do not match bundle note positions for round=round, bundle=0: expected [3, 5], got [4, 9]"
        ))
    );
    assert_eq!(queries::witness_count(&tables, R, W, 0), Ok(2));
    queries::store_witnesses(&mut tables, R, W, 0, &[witness(5, 8), witness(7, 9)], 2).unwrap();
    assert_eq!(
        queries::load_witnesses(&tables, R, W, 0),
        Ok(vec![witness(3, 2), witness(5, 8), witness(7, 9)])
    );
    queries::replace_bundle_witnesses(&mut tables, R, W, 0, &witnesses, 1).unwrap();
    assert_eq!(queries::witness_count(&tables, R, W, 0), Ok(2));
    queries::store_witnesses(&mut tables, R, W, 9, &[], 2).unwrap();
    assert_eq!(
        queries::store_witnesses(&mut tables, R, W, 9, &[witness(5, 8)], 2),
        Err(internal(&format!(
            "failed to store witness for position 5: {NO_PARENT}"
        )))
    );
}

#[test]
fn corrupt_witnesses_are_reported() {
    let mut tables = with_bundle();
    let mut short = witness(u64::MAX, 1);
    short.auth_path.pop();
    queries::store_witnesses(&mut tables, R, W, 0, &[short], 2).unwrap();
    assert_eq!(
        queries::load_witnesses(&tables, R, W, 0),
        Err(internal(
            "corrupt auth_path blob for position 18446744073709551615: expected 1024 bytes, got 992"
        ))
    );
}
