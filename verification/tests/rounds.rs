use zcash_voting::storage::migrations::{migrate, version_statement, Migration};
use zcash_voting::storage::queries;
use zcash_voting::storage::rows::RoundRow;
use zcash_voting::storage::tables::VotingTables;
use zcash_voting::storage::{RoundPhase, VotingDb};
use zcash_voting::types::{Network, VotingError, VotingRoundParams};

const W: &str = "wallet";
const R: &str = "round";

fn params(id: &str, height: u64) -> VotingRoundParams {
    VotingRoundParams {
        vote_round_id: id.to_string(),
        snapshot_height: height,
        ea_pk: vec![1; 32],
        nc_root: vec![2; 32],
        nullifier_imt_root: vec![3; 32],
    }
}

fn invalid(message: &str) -> VotingError {
    VotingError::InvalidInput {
        message: message.to_string(),
    }
}

fn internal(message: &str) -> VotingError {
    VotingError::Internal {
        message: message.to_string(),
    }
}

fn with_round() -> VotingTables {
    let mut tables = VotingTables::new();
    queries::insert_round(&mut tables, W, Network::Mainnet, &params(R, 7), None, 100).unwrap();
    tables
}

fn raw_round(network: &str, phase: i64) -> VotingTables {
    let mut tables = VotingTables::new();
    tables.rounds.put(RoundRow {
        round_id: R.to_string(),
        wallet_id: W.to_string(),
        network: network.to_string(),
        snapshot_height: 7,
        ea_pk: vec![],
        nc_root: vec![],
        nullifier_imt_root: vec![],
        session_json: None,
        phase,
        created_at: 100,
    });
    tables
}

#[test]
fn phases_follow_their_numbers() {
    let phases = [
        RoundPhase::Initialized,
        RoundPhase::HotkeyGenerated,
        RoundPhase::DelegationConstructed,
        RoundPhase::DelegationProved,
        RoundPhase::VoteReady,
    ];
    for i in 0..5 {
        assert_eq!(RoundPhase::from_i32(i), phases[i as usize]);
        assert_eq!(phases[i as usize].rank(), i);
    }
    assert_eq!(RoundPhase::from_i32(5), RoundPhase::Initialized);
    assert_eq!(RoundPhase::from_i32(-1), RoundPhase::Initialized);
}

#[test]
fn networks_have_stored_names() {
    for network in [Network::Mainnet, Network::Testnet, Network::Regtest] {
        let name = queries::network_to_storage(network);
        assert_eq!(queries::network_from_storage(name), Ok(network));
    }
    assert_eq!(queries::network_to_storage(Network::Regtest), "regtest");
    assert_eq!(
        queries::network_from_storage("moon"),
        Err(internal("stored round network is invalid: moon"))
    );
}

#[test]
fn a_round_is_stored_once() {
    let mut tables = with_round();
    let again = queries::insert_round(&mut tables, W, Network::Testnet, &params(R, 9), None, 200);
    assert_eq!(
        again,
        Err(internal(
            "failed to insert round: error returned from database: (code: 1555) UNIQUE constraint failed: voting_rounds.round_id, voting_rounds.wallet_id"
        ))
    );
    let (stored, network) =
        queries::load_round_params_with_network(&tables, R, W).unwrap();
    assert_eq!(stored, params(R, 7));
    assert_eq!(network, Network::Mainnet);
    assert_eq!(queries::load_round_params(&tables, R, W).unwrap(), params(R, 7));
    assert_eq!(queries::load_round_network(&tables, R, W).unwrap(), Network::Mainnet);
    assert_eq!(queries::has_round(&tables, R, W), Ok(true));
    assert_eq!(queries::has_round(&tables, R, "other"), Ok(false));
}

#[test]
fn heights_of_the_full_range_are_read_back() {
    let mut tables = VotingTables::new();
    let params = params(R, u64::MAX);
    queries::insert_round(&mut tables, W, Network::Mainnet, &params, Some("{}"), 1).unwrap();
    assert_eq!(
        queries::get_round_state(&tables, R, W).unwrap().snapshot_height,
        u64::MAX
    );
}

#[test]
fn a_missing_round_is_reported() {
    let tables = VotingTables::new();
    let expected = invalid(
        "round not found: round (no rows returned by a query that expected to return at least one row)",
    );
    assert_eq!(queries::get_round_state(&tables, R, W), Err(expected.clone()));
    assert_eq!(queries::load_round_params(&tables, R, W), Err(expected.clone()));
    assert_eq!(queries::load_round_network(&tables, R, W), Err(expected));
}

#[test]
fn rounds_only_advance() {
    let mut tables = with_round();
    queries::advance_round_phase(&mut tables, R, W, RoundPhase::DelegationProved).unwrap();
    queries::advance_round_phase(&mut tables, R, W, RoundPhase::DelegationProved).unwrap();
    assert_eq!(
        queries::advance_round_phase(&mut tables, R, W, RoundPhase::HotkeyGenerated),
        Err(invalid(
            "refusing to regress round phase for round: current=3, requested=1"
        ))
    );
    let state = queries::get_round_state(&tables, R, W).unwrap();
    assert_eq!(state.phase, RoundPhase::DelegationProved);

    queries::update_round_phase(&mut tables, R, W, RoundPhase::HotkeyGenerated).unwrap();
    let state = queries::get_round_state(&tables, R, W).unwrap();
    assert_eq!(state.phase, RoundPhase::HotkeyGenerated);
    assert_eq!(
        queries::update_round_phase(&mut tables, "none", W, RoundPhase::VoteReady),
        Err(invalid("round not found: none"))
    );
}

#[test]
fn a_stored_phase_that_is_none_does_not_advance() {
    let mut tables = raw_round("mainnet", 7);
    assert_eq!(
        queries::advance_round_phase(&mut tables, R, W, RoundPhase::VoteReady),
        Err(internal(
            "failed to advance round phase for round: current=0, requested=4"
        ))
    );
}

#[test]
fn unreadable_rounds_are_reported() {
    let tables = raw_round("mainnet", 1 << 40);
    assert_eq!(
        queries::get_round_state(&tables, R, W),
        Err(invalid(
            "round not found: round (error occurred while decoding column 0: out of range integral type conversion attempted)"
        ))
    );
    assert_eq!(
        queries::list_rounds(&tables, W),
        Err(internal(
            "failed to list rounds: error occurred while decoding column 2: out of range integral type conversion attempted"
        ))
    );
    let tables = raw_round("moon", 0);
    assert_eq!(
        queries::get_round_state(&tables, R, W),
        Err(internal("stored round network is invalid: moon"))
    );
    assert!(matches!(
        queries::list_rounds(&tables, W),
        Err(VotingError::Internal { message })
            if message.starts_with("failed to list rounds: ")
                && message.ends_with("stored round network is invalid: moon")
    ));
}

#[test]
fn rounds_are_listed_newest_first() {
    let mut tables = VotingTables::new();
    for (id, now) in [("a", 20), ("b", 30), ("c", 10)] {
        queries::insert_round(&mut tables, W, Network::Mainnet, &params(id, 1), None, now).unwrap();
    }
    queries::insert_round(&mut tables, "other", Network::Mainnet, &params("d", 1), None, 40)
        .unwrap();
    let ids: Vec<String> = queries::list_rounds(&tables, W)
        .unwrap()
        .into_iter()
        .map(|round| round.round_id)
        .collect();
    assert_eq!(ids, vec!["b", "a", "c"]);
}

#[test]
fn a_cleared_round_takes_everything_with_it() {
    let mut tables = with_round();
    queries::store_tree_state(&mut tables, R, W, 7, &[1]).unwrap();
    queries::insert_bundle(&mut tables, R, W, 0, &[5]).unwrap();
    queries::store_proof(&mut tables, R, W, 0, &[2], 1).unwrap();
    queries::store_vote(&mut tables, R, W, 0, 1, 1, &[3], 1).unwrap();
    queries::store_keystone_signature(&mut tables, R, W, 0, &[1], &[2], &[3], 1).unwrap();
    queries::record_share_delegation(&mut tables, R, W, 0, 1, 0, &[], &[4], 0, 1).unwrap();
    queries::clear_round(&mut tables, R, W).unwrap();
    assert!(tables.rounds.rows().is_empty());
    assert!(tables.tree_states.rows().is_empty());
    assert!(tables.bundles.rows().is_empty());
    assert!(tables.proofs.rows().is_empty());
    assert!(tables.votes.rows().is_empty());
    assert!(tables.keystone_signatures.rows().is_empty());
    assert!(tables.share_delegations.rows().is_empty());
    queries::clear_round(&mut tables, R, W).unwrap();
    queries::insert_round(&mut tables, W, Network::Mainnet, &params(R, 7), None, 100).unwrap();
}

#[test]
fn tree_states_need_their_round() {
    let mut tables = VotingTables::new();
    assert_eq!(
        queries::store_tree_state(&mut tables, R, W, 1, &[1]),
        Err(internal(
            "failed to store tree state: error returned from database: (code: 787) FOREIGN KEY constraint failed"
        ))
    );
    assert_eq!(
        queries::load_tree_state(&tables, R, W),
        Err(invalid(
            "no cached tree state for round: round (no rows returned by a query that expected to return at least one row)"
        ))
    );
}

#[test]
fn migrations_follow_the_version() {
    assert_eq!(migrate(None), Ok(Migration::Create));
    assert_eq!(migrate(Some(12)), Ok(Migration::Upgrade));
    assert_eq!(migrate(Some(13)), Ok(Migration::Nothing));
    assert_eq!(
        migrate(Some(14)),
        Err(internal(
            "unsupported newer voting schema version: expected at most 13, got 14"
        ))
    );
    assert_eq!(
        migrate(Some(-1)),
        Err(internal(
            "unsupported newer voting schema version: expected at most 13, got -1"
        ))
    );
    assert_eq!(
        version_statement(Migration::Create).unwrap(),
        "INSERT INTO voting_schema_version (version) VALUES (13)"
    );
    assert_eq!(
        version_statement(Migration::Upgrade).unwrap(),
        "UPDATE voting_schema_version SET version = 13"
    );
    assert_eq!(version_statement(Migration::Nothing), None);
    assert!(VotingDb::open(VotingTables::new(), Some(14)).is_err());
    assert_eq!(VotingDb::open(VotingTables::new(), Some(3)).unwrap().version, Some(13));
}

#[test]
fn a_wallet_is_set_before_use() {
    let mut db = VotingDb::open(VotingTables::new(), None).unwrap();
    assert!(!db.has_wallet_id());
    db.set_wallet_id(W);
    assert!(db.has_wallet_id());
    assert_eq!(db.wallet_id(), W);
}
