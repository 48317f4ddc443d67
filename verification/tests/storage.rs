use zcash_voting::storage::queries;
use zcash_voting::storage::tables::VotingTables;
use zcash_voting::storage::{RoundPhase, VotingDb};
use zcash_voting::types::{Network, VotingError, VotingRoundParams};

const W: &str = "test-wallet";
const NOW: i64 = 1_700_000_000;

fn test_db() -> VotingDb {
    VotingDb::open(VotingTables::new(), None).unwrap()
}

fn test_params() -> VotingRoundParams {
    VotingRoundParams {
        vote_round_id: "test-round-1".to_string(),
        snapshot_height: 1000,
        ea_pk: vec![0xEA; 32],
        nc_root: vec![0xAA; 32],
        nullifier_imt_root: vec![0xBB; 32],
    }
}

#[test]
fn test_open_in_memory() {
    let db = test_db();
    let version = db.version.unwrap();
    assert_eq!(version, 13);
}

#[test]
fn test_round_lifecycle() {
    let mut db = test_db();
    let conn = &mut db.tables;
    let params = test_params();

    queries::insert_round(conn, W, Network::Testnet, &params, None, NOW).unwrap();

    let state = queries::get_round_state(conn, "test-round-1", W).unwrap();
    assert_eq!(state.phase, RoundPhase::Initialized);
    assert_eq!(state.network, Network::Testnet);
    assert_eq!(state.snapshot_height, 1000);
    assert!(!state.proof_generated);

    let rounds = queries::list_rounds(conn, W).unwrap();
    assert_eq!(rounds.len(), 1);
    assert_eq!(rounds[0].round_id, "test-round-1");
    assert_eq!(rounds[0].network, Network::Testnet);

    queries::clear_round(conn, "test-round-1", W).unwrap();
    let rounds = queries::list_rounds(conn, W).unwrap();
    assert!(rounds.is_empty());
}

#[test]
fn test_tree_state_cache() {
    let mut db = test_db();
    let conn = &mut db.tables;
    queries::insert_round(conn, W, Network::Testnet, &test_params(), None, NOW).unwrap();

    let tree_state = vec![0xCC; 1024];
    queries::store_tree_state(conn, "test-round-1", W, 1000, &tree_state).unwrap();

    let loaded = queries::load_tree_state(conn, "test-round-1", W).unwrap();
    assert_eq!(loaded, tree_state);
}

#[test]
fn test_proof_storage() {
    let mut db = test_db();
    let conn = &mut db.tables;
    queries::insert_round(conn, W, Network::Testnet, &test_params(), None, NOW).unwrap();
    queries::insert_bundle(conn, "test-round-1", W, 0, &[]).unwrap();
    queries::store_proof(conn, "test-round-1", W, 0, &vec![0xAB; 256], NOW).unwrap();

    let state = queries::get_round_state(conn, "test-round-1", W).unwrap();
    assert!(!state.proof_generated, "proof alone should not be enough");

    queries::store_van_position(conn, "test-round-1", W, 0, 42).unwrap();
    let state = queries::get_round_state(conn, "test-round-1", W).unwrap();
    assert!(
        state.proof_generated,
        "proof + VAN position should be enough"
    );
}

#[test]
fn test_vote_storage() {
    let mut db = test_db();
    let conn = &mut db.tables;
    queries::insert_round(conn, W, Network::Testnet, &test_params(), None, NOW).unwrap();
    queries::insert_bundle(conn, "test-round-1", W, 0, &[]).unwrap();

    let commitment = vec![0xCC; 128];
    queries::store_vote(conn, "test-round-1", W, 0, 0, 0, &commitment, NOW).unwrap();
    queries::store_vote(conn, "test-round-1", W, 0, 1, 1, &commitment, NOW).unwrap();

    queries::record_vote_submission(conn, "test-round-1", W, 0, 0, "vote-tx").unwrap();
    queries::record_vote_submission(conn, "test-round-1", W, 0, 0, "vote-tx").unwrap();
    queries::store_vote(conn, "test-round-1", W, 0, 0, 0, &commitment, NOW).unwrap();
    let replace_err =
        queries::store_vote(conn, "test-round-1", W, 0, 0, 1, &commitment, NOW).unwrap_err();
    assert!(
        replace_err
            .text()
            .contains("cannot replace submitted vote"),
        "{replace_err:?}"
    );
    assert_eq!(
        queries::get_vote_tx_hash(conn, "test-round-1", W, 0, 0).unwrap(),
        Some("vote-tx".to_string())
    );

    let err =
        queries::record_vote_submission(conn, "test-round-1", W, 0, 99, "vote-tx").unwrap_err();
    assert!(matches!(err, VotingError::InvalidInput { .. }));
}

#[test]
fn test_get_votes() {
    let mut db = test_db();
    let conn = &mut db.tables;
    queries::insert_round(conn, W, Network::Testnet, &test_params(), None, NOW).unwrap();
    queries::insert_bundle(conn, "test-round-1", W, 0, &[]).unwrap();

    let votes = queries::get_votes(conn, "test-round-1", W).unwrap();
    assert!(votes.is_empty());

    let commitment = vec![0xCC; 128];
    queries::store_vote(conn, "test-round-1", W, 0, 0, 0, &commitment, NOW).unwrap();
    queries::store_vote(conn, "test-round-1", W, 0, 1, 2, &commitment, NOW).unwrap();

    let votes = queries::get_votes(conn, "test-round-1", W).unwrap();
    assert_eq!(votes.len(), 2);
    assert_eq!(votes[0].proposal_id, 0);
    assert_eq!(votes[0].choice, 0);
    assert_eq!(votes[1].proposal_id, 1);
    assert_eq!(votes[1].choice, 2);

    queries::record_vote_submission(conn, "test-round-1", W, 0, 0, "vote-tx").unwrap();
    let votes = queries::get_votes(conn, "test-round-1", W).unwrap();
    assert_eq!(
        queries::get_vote_tx_hash(conn, "test-round-1", W, 0, 0).unwrap(),
        Some("vote-tx".to_string())
    );
    assert_eq!(votes.len(), 2);
}

#[test]
fn test_wallet_isolation() {
    let mut db = test_db();
    let conn = &mut db.tables;
    let params = test_params();

    queries::insert_round(conn, "wallet-a", Network::Testnet, &params, None, NOW).unwrap();
    queries::insert_round(conn, "wallet-b", Network::Testnet, &params, None, NOW).unwrap();

    queries::insert_bundle(conn, "test-round-1", "wallet-a", 0, &[]).unwrap();
    queries::insert_bundle(conn, "test-round-1", "wallet-b", 0, &[]).unwrap();

    let commitment = vec![0xCC; 128];
    queries::store_vote(conn, "test-round-1", "wallet-a", 0, 0, 1, &commitment, NOW).unwrap();
    queries::store_vote(conn, "test-round-1", "wallet-b", 0, 0, 2, &commitment, NOW).unwrap();

    let votes_a = queries::get_votes(conn, "test-round-1", "wallet-a").unwrap();
    let votes_b = queries::get_votes(conn, "test-round-1", "wallet-b").unwrap();
    assert_eq!(votes_a.len(), 1);
    assert_eq!(votes_b.len(), 1);
    assert_eq!(votes_a[0].choice, 1);
    assert_eq!(votes_b[0].choice, 2);

    queries::clear_round(conn, "test-round-1", "wallet-a").unwrap();
    let rounds_b = queries::list_rounds(conn, "wallet-b").unwrap();
    assert_eq!(
        rounds_b.len(),
        1,
        "wallet-b round should survive wallet-a clear"
    );
}

#[test]
fn opens_migrates_and_persists_round_state() {
    let mut db = VotingDb::open(VotingTables::new(), None).unwrap();
    db.set_wallet_id("sqlx-wallet");
    assert_eq!(db.version, Some(13));

    let params = VotingRoundParams {
        vote_round_id: "sqlx-round".to_string(),
        snapshot_height: 1_000,
        ea_pk: vec![0xEA; 32],
        nc_root: vec![0xAA; 32],
        nullifier_imt_root: vec![0xBB; 32],
    };
    db.init_round(Network::Testnet, &params, Some(r#"{"source":"test"}"#), NOW)
        .unwrap();
    let state = db.get_round_state("sqlx-round").unwrap();
    assert_eq!(state.round_id, "sqlx-round");
    assert_eq!(state.network, Network::Testnet);
    assert_eq!(state.snapshot_height, 1_000);
}
