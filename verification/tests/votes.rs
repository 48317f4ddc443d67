use zcash_voting::storage::queries;
use zcash_voting::storage::rows::{IntentRow, VoteRow};
use zcash_voting::storage::tables::VotingTables;
use zcash_voting::types::{Network, VoteRecord, VotingError, VotingRoundParams};

const W: &str = "wallet";
const R: &str = "round";

fn invalid(message: &str) -> VotingError {
    VotingError::InvalidInput {
        message: message.to_string(),
    }
}

fn internal(message: &str) -> VotingError {
    VotingError::Internal {
        message: message.to_string(),
    }
}

fn with_bundles(n: u32) -> VotingTables {
    let mut tables = VotingTables::new();
    let params = VotingRoundParams {
        vote_round_id: R.to_string(),
        snapshot_height: 1,
        ea_pk: vec![9; 32],
        nc_root: vec![],
        nullifier_imt_root: vec![],
    };
    queries::insert_round(&mut tables, W, Network::Mainnet, &params, None, 1).unwrap();
    for i in 0..n {
        queries::insert_bundle(&mut tables, R, W, i, &[i as u64]).unwrap();
    }
    tables
}

fn decide(tables: &mut VotingTables, proposal_id: i64, skipped: i64, choice: Option<i64>) {
    tables.ballot_intents.put(IntentRow {
        round_id: R.to_string(),
        wallet_id: W.to_string(),
        proposal_id,
        skipped,
        choice,
    });
}

fn raw_vote(json: Option<&str>, position: Option<i64>) -> VoteRow {
    VoteRow {
        round_id: R.to_string(),
        wallet_id: W.to_string(),
        bundle_index: 0,
        proposal_id: 1,
        choice: 1,
        commitment: None,
        tx_hash: None,
        commitment_bundle_json: json.map(|json| json.to_string()),
        vc_tree_position: position,
        created_at: 1,
    }
}

#[test]
fn votes_need_their_bundle() {
    let mut tables = with_bundles(0);
    assert_eq!(
        queries::store_vote(&mut tables, R, W, 0, 1, 1, &[1], 1),
        Err(internal(
            "failed to store vote: error returned from database: (code: 787) FOREIGN KEY constraint failed"
        ))
    );
}

#[test]
fn a_changed_vote_loses_its_shares() {
    let mut tables = with_bundles(1);
    queries::store_vote(&mut tables, R, W, 0, 1, 1, &[1], 1).unwrap();
    queries::store_vote(&mut tables, R, W, 0, 2, 1, &[1], 1).unwrap();
    queries::record_share_delegation(&mut tables, R, W, 0, 1, 0, &[], &[4], 0, 1).unwrap();
    queries::record_share_delegation(&mut tables, R, W, 0, 2, 0, &[], &[5], 0, 1).unwrap();
    queries::store_vote(&mut tables, R, W, 0, 1, 1, &[1], 2).unwrap();
    assert_eq!(queries::get_share_delegations(&tables, R, W).unwrap().len(), 2);
    queries::store_vote(&mut tables, R, W, 0, 1, 1, &[2], 2).unwrap();
    let shares = queries::get_share_delegations(&tables, R, W).unwrap();
    assert_eq!(shares.len(), 1);
    assert_eq!(shares[0].proposal_id, 2);
}

#[test]
fn submitted_votes_are_final() {
    let mut tables = with_bundles(1);
    queries::store_vote(&mut tables, R, W, 0, 1, 1, &[1], 1).unwrap();
    assert_eq!(queries::get_vote_tx_hash(&tables, R, W, 0, 1).unwrap(), None);
    queries::record_vote_submission(&mut tables, R, W, 0, 1, "tx").unwrap();
    assert_eq!(
        queries::record_vote_submission(&mut tables, R, W, 0, 1, "other"),
        Err(invalid(
            "vote tx hash already recorded for round=round, wallet=wallet, bundle=0, proposal=1"
        ))
    );
    assert_eq!(
        queries::store_vote(&mut tables, R, W, 0, 1, 1, &[2], 1),
        Err(invalid(
            "cannot replace submitted vote for round=round, wallet=wallet, bundle=0, proposal=1"
        ))
    );
    assert_eq!(
        queries::record_vote_submission(&mut tables, R, W, 0, 2, "tx"),
        Err(invalid(
            "no vote found for round=round, wallet=wallet, bundle=0, proposal=2"
        ))
    );
    assert_eq!(
        queries::get_vote_tx_hash(&tables, R, W, 0, 1).unwrap(),
        Some("tx".to_string())
    );
    assert_eq!(
        queries::get_vote_tx_hash(&tables, R, W, 0, 2),
        Err(internal(
            "failed to get vote tx hash: no rows returned by a query that expected to return at least one row"
        ))
    );
}

#[test]
fn submissions_follow_the_decision() {
    let place = "round=round, wallet=wallet, bundle=0, proposal=1";
    let mut tables = with_bundles(1);
    decide(&mut tables, 1, 1, None);
    assert_eq!(
        queries::record_vote_submission(&mut tables, R, W, 0, 1, "tx"),
        Err(invalid(&format!("no vote found for {place}")))
    );
    queries::store_vote(&mut tables, R, W, 0, 1, 1, &[1], 1).unwrap();
    assert_eq!(
        queries::record_vote_submission(&mut tables, R, W, 0, 1, "tx"),
        Err(invalid(&format!(
            "cannot record vote submission for skipped proposal {place}"
        )))
    );
    decide(&mut tables, 1, 0, None);
    assert_eq!(
        queries::record_vote_submission(&mut tables, R, W, 0, 1, "tx"),
        Err(invalid(
            "ballot intent choice missing for round=round, wallet=wallet, proposal=1"
        ))
    );
    decide(&mut tables, 1, 0, Some(2));
    assert_eq!(
        queries::record_vote_submission(&mut tables, R, W, 0, 1, "tx"),
        Err(invalid(&format!(
            "vote submission conflicts with ballot intent for {place}"
        )))
    );
    decide(&mut tables, 1, 0, Some(1));
    queries::record_vote_submission(&mut tables, R, W, 0, 1, "tx").unwrap();
}

#[test]
fn decisions_agree_with_submitted_votes() {
    let mut tables = with_bundles(3);
    queries::store_vote(&mut tables, R, W, 2, 1, 1, &[1], 1).unwrap();
    queries::store_vote(&mut tables, R, W, 1, 1, 1, &[1], 1).unwrap();
    queries::record_vote_submission(&mut tables, R, W, 2, 1, "tx2").unwrap();
    queries::record_vote_submission(&mut tables, R, W, 1, 1, "tx1").unwrap();
    let conflict = Err(invalid(
        "round round bundle 1 proposal 1 has a submitted vote that conflicts with ballot intent",
    ));
    let check = queries::ensure_no_submitted_vote_conflict_for_intent;
    assert_eq!(check(&tables, R, W, 1, true, None), conflict);
    assert_eq!(check(&tables, R, W, 1, false, Some(2)), conflict);
    assert_eq!(check(&tables, R, W, 1, false, Some(1)), Ok(()));
    assert_eq!(check(&tables, R, W, 1, false, None), Ok(()));
    assert_eq!(check(&tables, R, W, 2, true, None), Ok(()));
}

#[test]
fn stale_shares_are_cleared() {
    let mut tables = with_bundles(2);
    queries::store_vote(&mut tables, R, W, 0, 1, 1, &[1], 1).unwrap();
    queries::store_vote(&mut tables, R, W, 1, 1, 2, &[1], 1).unwrap();
    for bundle in 0..2 {
        queries::record_share_delegation(&mut tables, R, W, bundle, 1, 0, &[], &[4], 0, 1).unwrap();
        queries::record_share_delegation(&mut tables, R, W, bundle, 2, 0, &[], &[4], 0, 1).unwrap();
    }
    let clear = queries::clear_stale_share_delegations_for_intent;
    assert_eq!(clear(&mut tables, R, W, 1, false, None), Ok(0));
    assert_eq!(
        clear(&mut tables, R, W, 1, false, Some(1)),
        Err(internal(
            "failed to clear stale share delegations: error returned from database: \
             (code: 1) no such column: votes.round_id"
        ))
    );
    assert_eq!(queries::get_share_delegations(&tables, R, W).unwrap().len(), 4);
    assert_eq!(clear(&mut tables, R, W, 2, true, None), Ok(2));
    assert_eq!(clear(&mut tables, R, W, 2, true, None), Ok(0));
    let shares = queries::get_share_delegations(&tables, R, W).unwrap();
    assert_eq!(shares.len(), 2);
    assert!(shares.iter().all(|share| share.proposal_id == 1));
    assert_eq!(clear(&mut tables, R, W, 1, true, Some(1)), Ok(2));
    assert_eq!(queries::get_share_delegations(&tables, R, W).unwrap(), vec![]);
}

#[test]
fn votes_are_listed_by_bundle_and_proposal() {
    let mut tables = with_bundles(2);
    queries::store_vote(&mut tables, R, W, 1, 1, 5, &[1], 1).unwrap();
    queries::store_vote(&mut tables, R, W, 0, 2, 6, &[1], 1).unwrap();
    queries::store_vote(&mut tables, R, W, 0, 1, 7, &[1], 1).unwrap();
    let expected: Vec<VoteRecord> = [(1, 0, 7), (2, 0, 6), (1, 1, 5)]
        .into_iter()
        .map(|(proposal_id, bundle_index, choice)| VoteRecord {
            proposal_id,
            bundle_index,
            choice,
        })
        .collect();
    assert_eq!(queries::get_votes(&tables, R, W).unwrap(), expected);
}

#[test]
fn commitment_bundles_need_a_position() {
    let mut tables = with_bundles(1);
    assert_eq!(
        queries::get_commitment_bundle(&tables, R, W, 0, 1),
        Err(internal(
            "failed to get commitment bundle: no rows returned by a query that expected to return at least one row"
        ))
    );
    assert_eq!(queries::get_commitment_bundle_recovery(&tables, R, W, 0, 1), Ok(None));
    tables.votes.put(raw_vote(None, Some(3)));
    assert_eq!(queries::get_commitment_bundle(&tables, R, W, 0, 1), Ok(None));
    tables.votes.put(raw_vote(Some("{}"), None));
    assert_eq!(
        queries::get_commitment_bundle(&tables, R, W, 0, 1),
        Err(internal(
            "commitment bundle is stored without vc_tree_position; refusing to assume position 0"
        ))
    );
    assert_eq!(
        queries::get_commitment_bundle_recovery(&tables, R, W, 0, 1),
        Ok(Some((Some("{}".to_string()), None)))
    );
    tables.votes.put(raw_vote(Some("{}"), Some(-3)));
    assert_eq!(
        queries::get_commitment_bundle(&tables, R, W, 0, 1),
        Err(internal("stored vc_tree_position must be non-negative, got -3"))
    );
    tables.votes.put(raw_vote(Some("{}"), Some(3)));
    assert_eq!(
        queries::get_commitment_bundle(&tables, R, W, 0, 1),
        Ok(Some(("{}".to_string(), 3)))
    );
}

#[test]
fn submitted_votes_spend_authority() {
    let mut tables = with_bundles(1);
    assert!(queries::proposals_fit(&tables, R, W, 0));
    let data = queries::load_zkp2_inputs(&tables, R, W, 0).unwrap();
    assert_eq!(data.proposal_authority, 0xFFFF);
    assert_eq!(data.ea_pk, vec![9; 32]);
    assert_eq!(data.voting_round_id, R);
    assert_eq!(data.total_note_value, 0);
    assert_eq!(data.gov_comm_rand, Vec::<u8>::new());
    for proposal in [1, 5, 20] {
        queries::store_vote(&mut tables, R, W, 0, proposal, 1, &[1], 1).unwrap();
    }
    queries::record_vote_submission(&mut tables, R, W, 0, 5, "tx").unwrap();
    queries::record_vote_submission(&mut tables, R, W, 0, 20, "tx").unwrap();
    assert!(queries::proposals_fit(&tables, R, W, 0));
    let data = queries::load_zkp2_inputs(&tables, R, W, 0).unwrap();
    assert_eq!(data.proposal_authority, 0xFFFF - 32);
    assert_eq!(
        queries::load_zkp2_inputs(&tables, R, W, 3),
        Err(invalid(
            "failed to load ZKP2 inputs for round=round, bundle=3 (no rows returned by a query that expected to return at least one row)"
        ))
    );
    queries::store_vote(&mut tables, R, W, 0, 64, 1, &[1], 1).unwrap();
    queries::record_vote_submission(&mut tables, R, W, 0, 64, "tx").unwrap();
    assert!(!queries::proposals_fit(&tables, R, W, 0));
}
