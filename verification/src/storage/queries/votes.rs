//! Votes: what a bundle votes on proposals, and its submission.

use vstd::prelude::*;

use crate::bytes::{bytes_eq, copy_bytes};
use crate::storage::faults::{
    no_parent, no_parent_text, no_row, no_row_text, no_such_column, no_such_column_text,
};
use crate::storage::rows::{
    round_key, vote_key, BundleKey, IntentColumns, IntentKey, OfProposal, OfRound, OfVote,
    RoundKey, ShareColumns, ShareKey, ShareRow, VoteColumns, VoteKey, VoteRow,
};
use crate::storage::table::{accepted, keys_of, Filter, Order, Row};
use crate::storage::tables::{ran, ran_with, Tables, VotingTables};
use crate::text::{copy_optional_text, decimal, str_eq};
use crate::types::{answers, Bytes, Fault, Message, Text, VoteRecord, VotingError};

verus! {

/// A new vote that is not submitted.
pub open spec fn new_vote(choice: u32, commitment: Bytes, now: i64) -> VoteColumns {
    VoteColumns {
        choice: choice as i64,
        commitment: Some(commitment),
        tx_hash: None,
        commitment_bundle_json: None,
        vc_tree_position: None,
        created_at: now,
    }
}

/// A stored vote has the choice and the commitment.
pub open spec fn is_same_vote(vote: VoteColumns, choice: u32, commitment: Bytes) -> bool {
    vote.choice == choice && vote.commitment == Some(commitment)
}

/// The tables without the shares of a vote.
pub open spec fn without_shares(tables: Tables, vote: VoteKey) -> Tables {
    Tables {
        share_delegations: tables.share_delegations.remove_keys(
            Set::new(|key: ShareKey| key.vote == vote),
        ),
        ..tables
    }
}

/// Names a vote in messages.
pub open spec fn vote_place(
    round_id: Text,
    wallet_id: Text,
    bundle_index: u32,
    proposal_id: u32,
) -> Text {
    "round="@ + round_id + ", wallet="@ + wallet_id + ", bundle="@ + decimal(bundle_index as int)
        + ", proposal="@ + decimal(proposal_id as int)
}

/// The text of [`vote_place`].
pub fn vote_place_text(
    round_id: &str,
    wallet_id: &str,
    bundle_index: u32,
    proposal_id: u32,
) -> (text: String)
    ensures
        text@ == vote_place(round_id@, wallet_id@, bundle_index, proposal_id),
{
    Message::new("round=").text(round_id).text(", wallet=").text(wallet_id).text(
        ", bundle=",
    ).number(bundle_index as i128).text(", proposal=").number(proposal_id as i128).into_text()
}

/// A submitted vote is not replaced; storing it again changes nothing. A vote
/// that replaces another one takes the shares of the other one away.
pub open spec fn store_vote_outcome(
    tables: Tables,
    round_id: Text,
    wallet_id: Text,
    bundle_index: u32,
    proposal_id: u32,
    choice: u32,
    commitment: Bytes,
    now: i64,
) -> Result<Tables, Fault> {
    let key = vote_key(round_id, wallet_id, bundle_index as int, proposal_id as int);
    let stored = tables.votes.contains_key(key);
    if stored && is_same_vote(tables.votes[key], choice, commitment) {
        Ok(tables)
    } else if stored && tables.votes[key].tx_hash is Some {
        Err(
            Fault::InvalidInput(
                "cannot replace submitted vote for "@ + vote_place(
                    round_id,
                    wallet_id,
                    bundle_index,
                    proposal_id,
                ),
            ),
        )
    } else if !tables.bundles.contains_key(key.bundle) {
        Err(Fault::Internal("failed to store vote: "@ + no_parent()))
    } else {
        let cast = Tables {
            votes: tables.votes.insert(key, new_vote(choice, commitment, now)),
            ..tables
        };
        if stored {
            Ok(without_shares(cast, key))
        } else {
            Ok(cast)
        }
    }
}

/// Stores a vote, created at `now`.
pub fn store_vote(
    tables: &mut VotingTables,
    round_id: &str,
    wallet_id: &str,
    bundle_index: u32,
    proposal_id: u32,
    choice: u32,
    commitment: &[u8],
    now: i64,
) -> (r: Result<(), VotingError>)
    ensures
        ran(
            r,
            store_vote_outcome(
                old(tables)@,
                round_id@,
                wallet_id@,
                bundle_index,
                proposal_id,
                choice,
                commitment@,
                now,
            ),
            old(tables)@,
            final(tables)@,
        ),
{
    let mut replaces = false;
    if let Some(vote) = tables.vote(round_id, wallet_id, bundle_index, proposal_id) {
        let same_commitment = match &vote.commitment {
            Some(stored) => bytes_eq(stored.as_slice(), commitment),
            None => false,
        };
        if vote.choice == choice as i64 && same_commitment {
            return Ok(());
        }
        if vote.tx_hash.is_some() {
            return Err(
                Message::new("cannot replace submitted vote for ").text(
                    vote_place_text(round_id, wallet_id, bundle_index, proposal_id).as_str(),
                ).invalid(),
            );
        }
        replaces = true;
    }
    if tables.bundle(round_id, wallet_id, bundle_index).is_none() {
        return Err(Message::new("failed to store vote: ").text(no_parent_text()).internal());
    }
    tables.votes.put(
        VoteRow {
            round_id: round_id.to_owned(),
            wallet_id: wallet_id.to_owned(),
            bundle_index: bundle_index as i64,
            proposal_id: proposal_id as i64,
            choice: choice as i64,
            commitment: Some(copy_bytes(commitment)),
            tx_hash: None,
            commitment_bundle_json: None,
            vc_tree_position: None,
            created_at: now,
        },
    );
    if replaces {
        let ghost cast = tables@;
        tables.share_delegations.remove_where(
            &OfVote {
                round_id,
                wallet_id,
                bundle_index: bundle_index as i64,
                proposal_id: proposal_id as i64,
            },
        );
        assert(tables@.share_delegations =~= without_shares(
            cast,
            vote_key(round_id@, wallet_id@, bundle_index as int, proposal_id as int),
        ).share_delegations);
    }
    Ok(())
}

/// The shares of a proposal in a round.
pub open spec fn proposal_shares(tables: Tables, round: RoundKey, proposal_id: u32) -> Set<
    ShareKey,
> {
    tables.share_delegations.dom().filter(
        |key: ShareKey| key.vote.bundle.round == round && key.vote.proposal_id == proposal_id,
    )
}

struct SharesOfProposal<'a> {
    round_id: &'a str,
    wallet_id: &'a str,
    proposal_id: u32,
}

impl<'a> Filter<ShareRow> for SharesOfProposal<'a> {
    closed spec fn accepts(&self, key: ShareKey, data: ShareColumns) -> bool {
        key.vote.bundle.round == round_key(self.round_id@, self.wallet_id@) && key.vote.proposal_id
            == self.proposal_id
    }

    fn test(&self, row: &ShareRow) -> bool {
        row.proposal_id == self.proposal_id as i64 && (OfRound {
            round_id: self.round_id,
            wallet_id: self.wallet_id,
        }).test(row)
    }
}

/// A skipped proposal loses all of its shares, and the outcome counts them. One
/// that is not skipped keeps them: without a choice there is nothing to clear,
/// and clearing by choice is refused, whatever is stored.
pub open spec fn clear_stale_outcome(
    tables: Tables,
    round_id: Text,
    wallet_id: Text,
    proposal_id: u32,
    skipped: bool,
    choice: Option<u32>,
) -> Result<(Tables, u64), Fault> {
    if skipped {
        let shares = proposal_shares(tables, round_key(round_id, wallet_id), proposal_id);
        Ok(
            (
                Tables { share_delegations: tables.share_delegations.remove_keys(shares), ..tables },
                shares.len() as u64,
            ),
        )
    } else if choice is Some {
        Err(
            Fault::Internal(
                "failed to clear stale share delegations: "@ + no_such_column("votes.round_id"@),
            ),
        )
    } else {
        Ok((tables, 0))
    }
}

/// Removes the shares of a skipped proposal and says how many they were. It is
/// refused for a proposal with a choice that is not skipped.
pub fn clear_stale_share_delegations_for_intent(
    tables: &mut VotingTables,
    round_id: &str,
    wallet_id: &str,
    proposal_id: u32,
    skipped: bool,
    choice: Option<u32>,
) -> (r: Result<u64, VotingError>)
    ensures
        skipped ==> proposal_shares(
            old(tables)@,
            round_key(round_id@, wallet_id@),
            proposal_id,
        ).finite(),
        ran_with(
            r,
            clear_stale_outcome(
                old(tables)@,
                round_id@,
                wallet_id@,
                proposal_id,
                skipped,
                choice,
            ),
            old(tables)@,
            final(tables)@,
        ),
{
    if skipped {
        let filter = SharesOfProposal { round_id, wallet_id, proposal_id };
        let n: usize = tables.share_delegations.remove_where(&filter);
        proof {
            let shares = proposal_shares(
                old(tables)@,
                round_key(round_id@, wallet_id@),
                proposal_id,
            );
            assert(shares =~= accepted::<ShareRow, SharesOfProposal>(
                old(tables)@.share_delegations,
                filter,
            ));
            assert(tables@.share_delegations =~= old(tables)@.share_delegations.remove_keys(
                shares,
            ));
        }
        return Ok(n as u64);
    }
    match choice {
        Some(_) => Err(
            Message::new("failed to clear stale share delegations: ").text(
                &no_such_column_text("votes.round_id"),
            ).internal(),
        ),
        None => Ok(0),
    }
}

/// The bundles whose submitted vote on a proposal is not what the voter wants.
pub open spec fn conflicting_bundles(
    tables: Tables,
    round: RoundKey,
    proposal_id: u32,
    skipped: bool,
    choice: Option<u32>,
) -> Set<i64> {
    Set::new(
        |index: i64|
            {
                let key = VoteKey {
                    bundle: BundleKey { round, bundle_index: index },
                    proposal_id: proposal_id as i64,
                };
                tables.votes.contains_key(key) && tables.votes[key].tx_hash is Some && (skipped
                    || (choice is Some && tables.votes[key].choice != choice->Some_0))
            },
    )
}

/// A number is the least of some numbers.
pub open spec fn is_least(n: i64, numbers: Set<i64>) -> bool {
    numbers.contains(n) && forall|other: i64| #[trigger] numbers.contains(other) ==> n <= other
}

/// The least of some numbers, if there are any.
pub open spec fn least(numbers: Set<i64>) -> i64 {
    choose|n: i64| is_least(n, numbers)
}

/// What a voter wants must not contradict a submitted vote.
pub open spec fn intent_conflict_outcome(
    tables: Tables,
    round_id: Text,
    wallet_id: Text,
    proposal_id: u32,
    skipped: bool,
    choice: Option<u32>,
) -> Result<(), Fault> {
    let bundles = conflicting_bundles(
        tables,
        round_key(round_id, wallet_id),
        proposal_id,
        skipped,
        choice,
    );
    if bundles == Set::<i64>::empty() {
        Ok(())
    } else {
        Err(
            Fault::InvalidInput(
                "round "@ + round_id + " bundle "@ + decimal(least(bundles) as int) + " proposal "@
                    + decimal(proposal_id as int)
                    + " has a submitted vote that conflicts with ballot intent"@,
            ),
        )
    }
}

struct Conflicting<'a> {
    round_id: &'a str,
    wallet_id: &'a str,
    proposal_id: u32,
    skipped: bool,
    choice: Option<u32>,
}

impl<'a> Filter<VoteRow> for Conflicting<'a> {
    closed spec fn accepts(&self, key: VoteKey, data: VoteColumns) -> bool {
        key.bundle.round == round_key(self.round_id@, self.wallet_id@) && key.proposal_id
            == self.proposal_id && data.tx_hash is Some && (self.skipped || (self.choice is Some
            && data.choice != self.choice->Some_0))
    }

    fn test(&self, row: &VoteRow) -> bool {
        row.proposal_id == self.proposal_id as i64 && row.tx_hash.is_some() && (self.skipped || (
        match self.choice {
            Some(choice) => row.choice != choice as i64,
            None => false,
        })) && (OfRound { round_id: self.round_id, wallet_id: self.wallet_id }).test(row)
    }
}

struct ByVote;

impl Order<VoteRow> for ByVote {
    closed spec fn rank(&self, key: VoteKey, data: VoteColumns) -> (int, int, int) {
        (key.bundle.bundle_index as int, key.proposal_id as int, 0)
    }

    fn rank_of(&self, row: &VoteRow) -> (i64, i64, i64) {
        (row.bundle_index, row.proposal_id, 0)
    }
}

/// Requires what a voter wants not to contradict a submitted vote.
pub fn ensure_no_submitted_vote_conflict_for_intent(
    tables: &VotingTables,
    round_id: &str,
    wallet_id: &str,
    proposal_id: u32,
    skipped: bool,
    choice: Option<u32>,
) -> (r: Result<(), VotingError>)
    ensures
        answers(
            r,
            intent_conflict_outcome(tables@, round_id@, wallet_id@, proposal_id, skipped, choice),
        ),
{
    let filter = Conflicting { round_id, wallet_id, proposal_id, skipped, choice };
    let found = tables.votes.select(&filter, &ByVote);
    let ghost keys = keys_of(found@);
    let ghost round = round_key(round_id@, wallet_id@);
    let ghost bundles = conflicting_bundles(tables@, round, proposal_id, skipped, choice);
    proof {
        assert forall|index: i64| #[trigger] bundles.contains(index) implies exists|i: int|
            0 <= i < keys.len() && (#[trigger] keys[i]).bundle.bundle_index == index by {
            let key = VoteKey {
                bundle: BundleKey { round, bundle_index: index },
                proposal_id: proposal_id as i64,
            };
            assert(accepted::<VoteRow, Conflicting>(tables@.votes, filter).contains(key));
            assert(keys.to_set().contains(key));
            let i = choose|i: int| 0 <= i < keys.len() && keys[i] == key;
            assert(keys[i].bundle.bundle_index == index);
        }
    }
    if found.len() == 0 {
        assert(bundles =~= Set::<i64>::empty());
        return Ok(());
    }
    let bundle_index: i64 = found[0].bundle_index;
    proof {
        let key = keys[0];
        assert(keys.to_set().contains(key));
        assert(key == VoteKey {
            bundle: BundleKey { round, bundle_index },
            proposal_id: proposal_id as i64,
        });
        assert(bundles.contains(bundle_index));
        assert forall|other: i64| #[trigger] bundles.contains(other) implies bundle_index
            <= other by {
            let i = choose|i: int|
                0 <= i < keys.len() && (#[trigger] keys[i]).bundle.bundle_index == other;
            assert(keys[0].bundle.bundle_index == bundle_index);
            assert(keys[i].bundle.bundle_index == other);
        }
        assert(is_least(bundle_index, bundles));
        assert(is_least(least(bundles), bundles));
    }
    Err(
        Message::new("round ").text(round_id).text(" bundle ").number(bundle_index as i128).text(
            " proposal ",
        ).number(proposal_id as i128).text(
            " has a submitted vote that conflicts with ballot intent",
        ).invalid(),
    )
}

/// The votes of a round, each one once, by bundle and proposal.
pub open spec fn lists_votes(keys: Seq<VoteKey>, tables: Tables, round: RoundKey) -> bool {
    &&& keys.no_duplicates()
    &&& keys.to_set() == tables.votes.dom().filter(|key: VoteKey| key.bundle.round == round)
    &&& forall|i: int, j: int|
        0 <= i < j < keys.len() ==> (#[trigger] keys[i]).bundle.bundle_index < (
        #[trigger] keys[j]).bundle.bundle_index || (keys[i].bundle.bundle_index
            == keys[j].bundle.bundle_index && keys[i].proposal_id <= keys[j].proposal_id)
}

/// A vote as it is listed.
pub open spec fn vote_record(key: VoteKey, vote: VoteColumns) -> VoteRecord {
    VoteRecord {
        proposal_id: key.proposal_id as u32,
        bundle_index: key.bundle.bundle_index as u32,
        choice: vote.choice as u32,
    }
}

/// Lists the votes of a round, over all its bundles.
pub fn get_votes(tables: &VotingTables, round_id: &str, wallet_id: &str) -> (r: Result<
    Vec<VoteRecord>,
    VotingError,
>)
    ensures
        exists|keys: Seq<VoteKey>| #[trigger]
            lists_votes(keys, tables@, round_key(round_id@, wallet_id@)) && answers(
                r,
                Ok(keys.map_values(|key: VoteKey| vote_record(key, tables@.votes[key]))),
            ),
{
    let rows = tables.votes.select(&OfRound { round_id, wallet_id }, &ByVote);
    let ghost keys = keys_of(rows@);
    let ghost round = round_key(round_id@, wallet_id@);
    let ghost records = keys.map_values(|key: VoteKey| vote_record(key, tables@.votes[key]));
    proof {
        assert(tables@.votes.dom().filter(|key: VoteKey| key.bundle.round == round)
            =~= keys.to_set());
        assert(lists_votes(keys, tables@, round));
    }
    let mut votes: Vec<VoteRecord> = Vec::new();
    let mut i: usize = 0;
    while i < rows.len()
        invariant
            i <= rows@.len(),
            keys == keys_of(rows@),
            records == keys.map_values(|key: VoteKey| vote_record(key, tables@.votes[key])),
            forall|j: int|
                0 <= j < rows@.len() ==> tables@.votes[(#[trigger] rows@[j]).key()]
                    == rows@[j].data(),
            votes@ == records.take(i as int),
        decreases rows.len() - i,
    {
        let row = rows[i];
        votes.push(
            VoteRecord {
                proposal_id: row.proposal_id as u32,
                bundle_index: row.bundle_index as u32,
                choice: row.choice as u32,
            },
        );
        assert(votes@ =~= records.take(i + 1));
        i += 1;
    }
    assert(votes@ =~= records);
    Ok(votes)
}

/// What a voter has decided for a proposal, if anything.
pub open spec fn intent_of(tables: Tables, round: RoundKey, proposal_id: u32) -> Option<
    IntentColumns,
> {
    let key = IntentKey { round, proposal_id: proposal_id as i64 };
    if tables.ballot_intents.contains_key(key) {
        Some(tables.ballot_intents[key])
    } else {
        None
    }
}

/// Reads what a voter has decided for a proposal: whether it is skipped, and
/// the choice.
pub fn load_ballot_intent(
    tables: &VotingTables,
    round_id: &str,
    wallet_id: &str,
    proposal_id: u32,
) -> (intent: Option<(i64, Option<i64>)>)
    ensures
        match intent_of(tables@, round_key(round_id@, wallet_id@), proposal_id) {
            Some(columns) => intent == Some((columns.skipped, columns.choice)),
            None => intent is None,
        },
{
    match tables.ballot_intents.find(
        &OfProposal { round_id, wallet_id, proposal_id: proposal_id as i64 },
    ) {
        Some(row) => Some((row.skipped, row.choice)),
        None => None,
    }
}

/// Reads the choice of a vote, if the vote is stored.
pub fn load_vote_choice_for_intent_check(
    tables: &VotingTables,
    round_id: &str,
    wallet_id: &str,
    bundle_index: u32,
    proposal_id: u32,
) -> (choice: Option<i64>)
    ensures
        ({
            let key = vote_key(round_id@, wallet_id@, bundle_index as int, proposal_id as int);
            choice == if tables@.votes.contains_key(key) {
                Some(tables@.votes[key].choice)
            } else {
                None
            }
        }),
{
    match tables.vote(round_id, wallet_id, bundle_index, proposal_id) {
        Some(vote) => Some(vote.choice),
        None => None,
    }
}

/// A decision without a choice.
pub open spec fn choice_missing(round_id: Text, wallet_id: Text, proposal_id: u32) -> Fault {
    Fault::InvalidInput(
        "ballot intent choice missing for round="@ + round_id + ", wallet="@ + wallet_id
            + ", proposal="@ + decimal(proposal_id as int),
    )
}

/// The error of [`choice_missing`].
pub fn choice_missing_error(round_id: &str, wallet_id: &str, proposal_id: u32) -> (error:
    VotingError)
    ensures
        error@ == choice_missing(round_id@, wallet_id@, proposal_id),
{
    Message::new("ballot intent choice missing for round=").text(round_id).text(", wallet=").text(
        wallet_id,
    ).text(", proposal=").number(proposal_id as i128).invalid()
}

/// A vote may be submitted if nothing was decided for its proposal, or if its
/// choice was. A vote that is not stored is not judged.
pub open spec fn submission_fits_intent(
    tables: Tables,
    round_id: Text,
    wallet_id: Text,
    bundle_index: u32,
    proposal_id: u32,
) -> Result<(), Fault> {
    let key = vote_key(round_id, wallet_id, bundle_index as int, proposal_id as int);
    let place = vote_place(round_id, wallet_id, bundle_index, proposal_id);
    match intent_of(tables, round_key(round_id, wallet_id), proposal_id) {
        None => Ok(()),
        Some(intent) => if !tables.votes.contains_key(key) {
            Ok(())
        } else if intent.skipped != 0 {
            Err(
                Fault::InvalidInput("cannot record vote submission for skipped proposal "@ + place),
            )
        } else if intent.choice is None {
            Err(choice_missing(round_id, wallet_id, proposal_id))
        } else if intent.choice->Some_0 != tables.votes[key].choice {
            Err(
                Fault::InvalidInput(
                    "vote submission conflicts with ballot intent for "@ + place,
                ),
            )
        } else {
            Ok(())
        },
    }
}

fn ensure_vote_submission_matches_ballot_intent(
    tables: &VotingTables,
    round_id: &str,
    wallet_id: &str,
    bundle_index: u32,
    proposal_id: u32,
) -> (r: Result<(), VotingError>)
    ensures
        answers(
            r,
            submission_fits_intent(tables@, round_id@, wallet_id@, bundle_index, proposal_id),
        ),
{
    let (skipped, choice) = match load_ballot_intent(tables, round_id, wallet_id, proposal_id) {
        Some(intent) => intent,
        None => return Ok(()),
    };
    let vote_choice: i64 = match load_vote_choice_for_intent_check(
        tables,
        round_id,
        wallet_id,
        bundle_index,
        proposal_id,
    ) {
        Some(vote_choice) => vote_choice,
        None => return Ok(()),
    };
    if skipped != 0 {
        return Err(
            Message::new("cannot record vote submission for skipped proposal ").text(
                vote_place_text(round_id, wallet_id, bundle_index, proposal_id).as_str(),
            ).invalid(),
        );
    }
    match choice {
        Some(choice) => if vote_choice == choice {
            Ok(())
        } else {
            Err(
                Message::new("vote submission conflicts with ballot intent for ").text(
                    vote_place_text(round_id, wallet_id, bundle_index, proposal_id).as_str(),
                ).invalid(),
            )
        },
        None => Err(choice_missing_error(round_id, wallet_id, proposal_id)),
    }
}

/// A transaction hash is recorded for a stored vote that fits the decision of
/// the voter. The same hash may be recorded again, another one may not.
pub open spec fn record_submission_outcome(
    tables: Tables,
    round_id: Text,
    wallet_id: Text,
    bundle_index: u32,
    proposal_id: u32,
    tx_hash: Text,
) -> Result<Tables, Fault> {
    let key = vote_key(round_id, wallet_id, bundle_index as int, proposal_id as int);
    let place = vote_place(round_id, wallet_id, bundle_index, proposal_id);
    match submission_fits_intent(tables, round_id, wallet_id, bundle_index, proposal_id) {
        Err(fault) => Err(fault),
        Ok(_) => if !tables.votes.contains_key(key) {
            Err(Fault::InvalidInput("no vote found for "@ + place))
        } else if tables.votes[key].tx_hash is Some && tables.votes[key].tx_hash != Some(tx_hash) {
            Err(Fault::InvalidInput("vote tx hash already recorded for "@ + place))
        } else {
            Ok(
                Tables {
                    votes: tables.votes.insert(
                        key,
                        VoteColumns { tx_hash: Some(tx_hash), ..tables.votes[key] },
                    ),
                    ..tables
                },
            )
        },
    }
}

/// Records the transaction that submitted a vote.
pub fn record_vote_submission(
    tables: &mut VotingTables,
    round_id: &str,
    wallet_id: &str,
    bundle_index: u32,
    proposal_id: u32,
    tx_hash: &str,
) -> (r: Result<(), VotingError>)
    ensures
        ran(
            r,
            record_submission_outcome(
                old(tables)@,
                round_id@,
                wallet_id@,
                bundle_index,
                proposal_id,
                tx_hash@,
            ),
            old(tables)@,
            final(tables)@,
        ),
{
    if let Err(error) = ensure_vote_submission_matches_ballot_intent(
        tables,
        round_id,
        wallet_id,
        bundle_index,
        proposal_id,
    ) {
        return Err(error);
    }
    match tables.votes.take(
        &OfVote {
            round_id,
            wallet_id,
            bundle_index: bundle_index as i64,
            proposal_id: proposal_id as i64,
        },
    ) {
        Some(mut row) => {
            let ghost key = row.key();
            let conflict = match &row.tx_hash {
                Some(stored) => !str_eq(stored.as_str(), tx_hash),
                None => false,
            };
            if !conflict {
                row.tx_hash = Some(tx_hash.to_owned());
            }
            tables.votes.put(row);
            assert(tables@.votes =~= old(tables)@.votes.insert(key, row.data()));
            if conflict {
                assert(tables@.votes =~= old(tables)@.votes);
                return Err(
                    Message::new("vote tx hash already recorded for ").text(
                        vote_place_text(round_id, wallet_id, bundle_index, proposal_id).as_str(),
                    ).invalid(),
                );
            }
            Ok(())
        },
        None => Err(
            Message::new("no vote found for ").text(
                vote_place_text(round_id, wallet_id, bundle_index, proposal_id).as_str(),
            ).invalid(),
        ),
    }
}

/// The transaction that submitted a vote.
pub open spec fn vote_tx_hash_outcome(tables: Tables, key: VoteKey) -> Result<Option<Text>, Fault> {
    if !tables.votes.contains_key(key) {
        Err(Fault::Internal("failed to get vote tx hash: "@ + no_row()))
    } else {
        Ok(tables.votes[key].tx_hash)
    }
}

/// Reads the transaction that submitted a vote.
pub fn get_vote_tx_hash(
    tables: &VotingTables,
    round_id: &str,
    wallet_id: &str,
    bundle_index: u32,
    proposal_id: u32,
) -> (r: Result<Option<String>, VotingError>)
    ensures
        answers(
            r,
            vote_tx_hash_outcome(
                tables@,
                vote_key(round_id@, wallet_id@, bundle_index as int, proposal_id as int),
            ),
        ),
{
    match tables.vote(round_id, wallet_id, bundle_index, proposal_id) {
        Some(vote) => Ok(copy_optional_text(&vote.tx_hash)),
        None => Err(Message::new("failed to get vote tx hash: ").text(no_row_text()).internal()),
    }
}

/// The commitment bundle of a vote and its position in the vote commitment tree.
pub open spec fn commitment_bundle_outcome(tables: Tables, key: VoteKey) -> Result<
    Option<(Text, u64)>,
    Fault,
> {
    let vote = tables.votes[key];
    if !tables.votes.contains_key(key) {
        Err(Fault::Internal("failed to get commitment bundle: "@ + no_row()))
    } else if vote.commitment_bundle_json is None {
        Ok(None)
    } else if vote.vc_tree_position is None {
        Err(
            Fault::Internal(
                "commitment bundle is stored without vc_tree_position; refusing to assume position 0"@,
            ),
        )
    } else if vote.vc_tree_position->Some_0 < 0 {
        Err(
            Fault::Internal(
                "stored vc_tree_position must be non-negative, got "@ + decimal(
                    vote.vc_tree_position->Some_0 as int,
                ),
            ),
        )
    } else {
        Ok(Some((vote.commitment_bundle_json->Some_0, vote.vc_tree_position->Some_0 as u64)))
    }
}

/// Reads the commitment bundle of a vote and its position in the vote
/// commitment tree.
pub fn get_commitment_bundle(
    tables: &VotingTables,
    round_id: &str,
    wallet_id: &str,
    bundle_index: u32,
    proposal_id: u32,
) -> (r: Result<Option<(String, u64)>, VotingError>)
    ensures
        answers(
            r,
            commitment_bundle_outcome(
                tables@,
                vote_key(round_id@, wallet_id@, bundle_index as int, proposal_id as int),
            ),
        ),
{
    let vote = match tables.vote(round_id, wallet_id, bundle_index, proposal_id) {
        Some(vote) => vote,
        None => return Err(
            Message::new("failed to get commitment bundle: ").text(no_row_text()).internal(),
        ),
    };
    match (&vote.commitment_bundle_json, vote.vc_tree_position) {
        (Some(json), Some(position)) => {
            if position < 0 {
                return Err(
                    Message::new("stored vc_tree_position must be non-negative, got ").number(
                        position as i128,
                    ).internal(),
                );
            }
            Ok(Some((json.clone(), position as u64)))
        },
        (Some(_), None) => Err(
            Message::new(
                "commitment bundle is stored without vc_tree_position; refusing to assume position 0",
            ).internal(),
        ),
        (None, _) => Ok(None),
    }
}

/// What is stored to recover the commitment bundle of a vote.
pub open spec fn recovery_outcome(tables: Tables, key: VoteKey) -> Option<
    (Option<Text>, Option<i64>),
> {
    if tables.votes.contains_key(key) {
        Some((tables.votes[key].commitment_bundle_json, tables.votes[key].vc_tree_position))
    } else {
        None
    }
}

/// Reads what is stored to recover the commitment bundle of a vote, as it is
/// stored: a vote that is not confirmed has no position yet.
pub fn get_commitment_bundle_recovery(
    tables: &VotingTables,
    round_id: &str,
    wallet_id: &str,
    bundle_index: u32,
    proposal_id: u32,
) -> (r: Result<Option<(Option<String>, Option<i64>)>, VotingError>)
    ensures
        answers(
            r,
            Ok(
                recovery_outcome(
                    tables@,
                    vote_key(round_id@, wallet_id@, bundle_index as int, proposal_id as int),
                ),
            ),
        ),
{
    match tables.vote(round_id, wallet_id, bundle_index, proposal_id) {
        Some(vote) => Ok(
            Some((copy_optional_text(&vote.commitment_bundle_json), vote.vc_tree_position)),
        ),
        None => Ok(None),
    }
}

} // verus!
