use zcash_voting::precompute::{
    delegation_pir, reset_voting_session_state, verify_witness, vote_tree_sync_for,
    warm_delegation_pir, PirPrecomputeReport, PirPrecomputeResult, VoteTreeSlots,
};
use zcash_voting::storage::queries;
use zcash_voting::storage::tables::VotingTables;
use zcash_voting::storage::VotingDb;
use zcash_voting::transport::TransportError;
use zcash_voting::types::{Network, VotingError, VotingRoundParams, WitnessData};

const R: &str = "round";
const W: &str = "wallet";

fn failed() -> VotingError {
    VotingError::Internal {
        message: "failed".to_string(),
    }
}

fn db() -> VotingDb {
    let mut db = VotingDb::open(VotingTables::new(), None).unwrap();
    db.set_wallet_id(W);
    let params = VotingRoundParams {
        vote_round_id: R.to_string(),
        snapshot_height: 1,
        ea_pk: vec![],
        nc_root: vec![],
        nullifier_imt_root: vec![],
    };
    db.init_round(Network::Mainnet, &params, None, 1).unwrap();
    queries::insert_bundle(&mut db.tables, R, W, 0, &[1]).unwrap();
    queries::store_padded_note_secrets_if_absent(&mut db.tables, R, W, 0, &[]).unwrap();
    db
}

fn has_secrets(db: &VotingDb) -> bool {
    queries::load_padded_note_secrets_optional(&db.tables, R, W, 0)
        .unwrap()
        .is_some()
}

#[test]
fn witnesses_are_judged_by_their_root() {
    let witness = WitnessData {
        note_commitment: vec![],
        position: 77,
        root: vec![],
        auth_path: vec![],
    };
    assert_eq!(verify_witness(&witness, Ok(true)), Ok(()));
    assert_eq!(
        verify_witness(&witness, Ok(false)),
        Err(VotingError::InvalidInput {
            message: "witness root mismatch at note position 77".to_string()
        })
    );
    assert_eq!(verify_witness(&witness, Err(failed())), Err(failed()));
}

#[test]
fn a_session_reset_clears_unsigned_setup() {
    let mut db = db();
    assert_eq!(reset_voting_session_state(&mut db, R, Err(failed())), Err(failed()));
    assert!(has_secrets(&db));
    reset_voting_session_state(&mut db, "", Ok(())).unwrap();
    assert!(has_secrets(&db));
    reset_voting_session_state(&mut db, R, Ok(())).unwrap();
    assert!(!has_secrets(&db));
}

#[test]
fn each_wallet_has_one_vote_tree() {
    let mut slots = VoteTreeSlots::new();
    let mut db = db();
    assert_eq!(vote_tree_sync_for(&mut slots, &db), 0);
    db.set_wallet_id("other");
    assert_eq!(vote_tree_sync_for(&mut slots, &db), 1);
    db.set_wallet_id(W);
    assert_eq!(vote_tree_sync_for(&mut slots, &db), 0);
}

#[test]
fn precomputed_proofs_are_reported() {
    let result = PirPrecomputeResult {
        cached_count: 2,
        fetched_count: 3,
    };
    let report = PirPrecomputeReport {
        cached: 2,
        fetched: 3,
    };
    assert_eq!(delegation_pir(Ok(result)), Ok(report));
    assert_eq!(delegation_pir(Err(failed())), Err(failed()));
    let prepared = warm_delegation_pir(Ok(()), Ok(result), "layout", 4).unwrap();
    assert_eq!(prepared.report, report);
    assert_eq!((prepared.layout, prepared.bundle_index), ("layout", 4));
    assert_eq!(warm_delegation_pir(Err(failed()), Ok(result), "layout", 4), Err(failed()));
    assert_eq!(warm_delegation_pir(Ok(()), Err(failed()), "layout", 4), Err(failed()));
}

#[test]
fn transport_errors_are_shown() {
    assert_eq!(
        TransportError::Request("timeout".to_string()).text(),
        "request failed: timeout"
    );
}
