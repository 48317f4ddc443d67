use zcash_voting::storage::queries;
use zcash_voting::storage::rows::{IntentRow, ShareRow};
use zcash_voting::storage::tables::VotingTables;
use zcash_voting::types::{Network, ShareDelegationRecord, VotingError, VotingRoundParams};

const W: &str = "wallet";
const R: &str = "round";
const PLACE: &str = "round=round, wallet=wallet, bundle=0, proposal=1";

fn invalid(message: &str) -> VotingError {
    VotingError::InvalidInput {
        message: message.to_string(),
    }
}

fn internal(message: &str) -> VotingError {
    VotingError::Internal {
        message: message.to_string(),
    }
}

fn with_bundle() -> VotingTables {
    let mut tables = VotingTables::new();
    let params = VotingRoundParams {
        vote_round_id: R.to_string(),
        snapshot_height: 1,
        ea_pk: vec![],
        nc_root: vec![],
        nullifier_imt_root: vec![],
    };
    queries::insert_round(&mut tables, W, Network::Mainnet, &params, None, 1).unwrap();
    queries::insert_bundle(&mut tables, R, W, 0, &[]).unwrap();
    tables
}

fn decide(tables: &mut VotingTables, skipped: i64, choice: Option<i64>) {
    tables.ballot_intents.put(IntentRow {
        round_id: R.to_string(),
        wallet_id: W.to_string(),
        proposal_id: 1,
        skipped,
        choice,
    });
}

fn urls(list: &[&str]) -> Vec<String> {
    list.iter().map(|url| url.to_string()).collect()
}

fn raw_share(sent_to_urls: &str) -> ShareRow {
    ShareRow {
        round_id: R.to_string(),
        wallet_id: W.to_string(),
        bundle_index: 0,
        proposal_id: 1,
        share_index: 0,
        sent_to_urls: sent_to_urls.to_string(),
        nullifier: vec![7],
        confirmed: 0,
        submit_at: 5,
        created_at: 6,
    }
}

#[test]
fn shares_are_recorded_and_listed() {
    let mut tables = with_bundle();
    let servers = urls(&["https://a", "https://\"b\"\n"]);
    queries::record_share_delegation(&mut tables, R, W, 0, 1, 2, &servers, &[7], 50, 60).unwrap();
    assert_eq!(
        tables.share_delegations.rows()[0].sent_to_urls,
        "[\"https://a\",\"https://\\\"b\\\"\\n\"]"
    );
    let shares = queries::get_share_delegations(&tables, R, W).unwrap();
    assert_eq!(
        shares,
        vec![ShareDelegationRecord {
            round_id: R.to_string(),
            bundle_index: 0,
            proposal_id: 1,
            share_index: 2,
            sent_to_urls: servers,
            nullifier: vec![7],
            confirmed: false,
            submit_at: 50,
            created_at: 60,
        }]
    );
}

#[test]
fn a_share_keeps_its_nullifier() {
    let mut tables = with_bundle();
    queries::record_share_delegation(&mut tables, R, W, 0, 1, 0, &urls(&["a"]), &[7], 50, 60)
        .unwrap();
    queries::mark_share_confirmed(&mut tables, R, W, 0, 1, 0).unwrap();
    queries::record_share_delegation(&mut tables, R, W, 0, 1, 0, &urls(&["b"]), &[7], 70, 80)
        .unwrap();
    let share = queries::get_share_delegations(&tables, R, W).unwrap().remove(0);
    assert_eq!(share.sent_to_urls, urls(&["b"]));
    assert_eq!((share.submit_at, share.created_at, share.confirmed), (70, 60, true));
    assert_eq!(
        queries::record_share_delegation(&mut tables, R, W, 0, 1, 0, &urls(&["c"]), &[8], 1, 1),
        Err(invalid(&format!("share nullifier conflict for {PLACE}, share=0")))
    );
}

#[test]
fn shares_need_their_bundle() {
    let mut tables = with_bundle();
    assert_eq!(
        queries::record_share_delegation(&mut tables, R, W, 4, 1, 0, &[], &[7], 0, 0),
        Err(internal(
            "failed to record share delegation: error returned from database: (code: 787) FOREIGN KEY constraint failed"
        ))
    );
}

#[test]
fn shares_follow_the_decision() {
    let mut tables = with_bundle();
    decide(&mut tables, 1, None);
    assert_eq!(
        queries::record_share_delegation(&mut tables, R, W, 0, 1, 0, &[], &[7], 0, 0),
        Err(invalid(&format!(
            "cannot record share delegation for skipped proposal {PLACE}"
        )))
    );
    decide(&mut tables, 0, None);
    assert_eq!(
        queries::mark_share_confirmed(&mut tables, R, W, 0, 1, 0),
        Err(invalid(
            "ballot intent choice missing for round=round, wallet=wallet, proposal=1"
        ))
    );
    decide(&mut tables, 0, Some(1));
    assert_eq!(
        queries::add_sent_servers(&mut tables, R, W, 0, 1, 0, &[]),
        Err(invalid(&format!(
            "share delegation conflicts with ballot intent for {PLACE}"
        )))
    );
    queries::store_vote(&mut tables, R, W, 0, 1, 1, &[1], 1).unwrap();
    queries::record_share_delegation(&mut tables, R, W, 0, 1, 0, &[], &[7], 0, 0).unwrap();
}

#[test]
fn confirmed_shares_are_not_pending() {
    let mut tables = with_bundle();
    for share in 0..2 {
        queries::record_share_delegation(&mut tables, R, W, 0, 1, share, &[], &[7], 0, 0).unwrap();
    }
    queries::mark_share_confirmed(&mut tables, R, W, 0, 1, 0).unwrap();
    queries::mark_share_confirmed(&mut tables, R, W, 0, 1, 0).unwrap();
    let pending = queries::get_unconfirmed_delegations(&tables, R, W).unwrap();
    assert_eq!(pending.len(), 1);
    assert_eq!(pending[0].share_index, 1);
    assert_eq!(
        queries::mark_share_confirmed(&mut tables, R, W, 0, 1, 9),
        Err(internal(
            "no share delegation found: round=round, bundle=0, proposal=1, share=9"
        ))
    );
}

#[test]
fn servers_are_added_once_and_in_order() {
    let mut tables = with_bundle();
    queries::record_share_delegation(&mut tables, R, W, 0, 1, 0, &urls(&["a", "b"]), &[7], 50, 60)
        .unwrap();
    queries::add_sent_servers(&mut tables, R, W, 0, 1, 0, &urls(&["c", "a", "c", "d"])).unwrap();
    let share = queries::get_share_delegations(&tables, R, W).unwrap().remove(0);
    assert_eq!(share.sent_to_urls, urls(&["a", "b", "c", "d"]));
    assert_eq!(share.submit_at, 0);
    assert_eq!(
        queries::add_sent_servers(&mut tables, R, W, 0, 1, 9, &[]),
        Err(internal(
            "failed to read sent_to_urls for update: no rows returned by a query that expected to return at least one row"
        ))
    );
}

#[test]
fn servers_listed_twice_stay_and_new_ones_come_once() {
    let mut tables = with_bundle();
    queries::record_share_delegation(&mut tables, R, W, 0, 1, 0, &urls(&["a", "a"]), &[7], 50, 60)
        .unwrap();
    queries::add_sent_servers(&mut tables, R, W, 0, 1, 0, &urls(&["b", "a", "b"])).unwrap();
    let share = queries::get_share_delegations(&tables, R, W).unwrap().remove(0);
    assert_eq!(share.sent_to_urls, urls(&["a", "a", "b"]));
}

#[test]
fn unconfirmed_shares_are_a_filter_of_all() {
    let mut tables = with_bundle();
    for (proposal, share) in [(2, 0), (1, 1), (2, 1), (1, 0)] {
        queries::record_share_delegation(
            &mut tables, R, W, 0, proposal, share, &[], &[7], 50, 60,
        )
        .unwrap();
    }
    queries::mark_share_confirmed(&mut tables, R, W, 0, 1, 1).unwrap();
    queries::mark_share_confirmed(&mut tables, R, W, 0, 2, 0).unwrap();
    let mut shares = queries::get_share_delegations(&tables, R, W).unwrap();
    assert_eq!(shares.len(), 4);
    shares.retain(|share| !share.confirmed);
    assert_eq!(shares.len(), 2);
    assert_eq!((shares[0].proposal_id, shares[0].share_index), (1, 0));
    assert_eq!((shares[1].proposal_id, shares[1].share_index), (2, 1));
    assert_eq!(queries::get_unconfirmed_delegations(&tables, R, W), Ok(shares));
}

#[test]
fn corrupt_shares_are_reported() {
    let mut tables = with_bundle();
    tables.share_delegations.put(raw_share("[1]"));
    assert!(matches!(
        queries::get_share_delegations(&tables, R, W),
        Err(VotingError::Internal { message })
            if message.starts_with("failed to deserialize sent_to_urls: invalid type: integer `1`")
    ));
    assert!(matches!(
        queries::add_sent_servers(&mut tables, R, W, 0, 1, 0, &[]),
        Err(VotingError::Internal { message })
            if message.starts_with("failed to deserialize sent_to_urls: ")
    ));
    let mut late = raw_share("[]");
    late.share_index = -1;
    tables.share_delegations.put(late);
    assert_eq!(
        queries::get_share_delegations(&tables, R, W),
        Err(internal(
            "failed to query share delegations: error occurred while decoding column 2: out of range integral type conversion attempted"
        ))
    );
}

#[test]
fn shares_are_listed_by_proposal_and_share() {
    let mut tables = with_bundle();
    for (proposal, share) in [(2, 0), (1, 1), (1, 0)] {
        queries::record_share_delegation(&mut tables, R, W, 0, proposal, share, &[], &[7], 0, 0)
            .unwrap();
    }
    let order: Vec<(u32, u32)> = queries::get_share_delegations(&tables, R, W)
        .unwrap()
        .into_iter()
        .map(|share| (share.proposal_id, share.share_index))
        .collect();
    assert_eq!(order, vec![(1, 0), (1, 1), (2, 0)]);
}
