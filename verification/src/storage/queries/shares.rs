//! Shares of votes that helper servers submit.

use vstd::prelude::*;

use crate::bytes::{bytes_eq, copy_bytes};
use crate::storage::faults::{
    no_parent, no_parent_text, no_row, no_row_text, out_of_range, out_of_range_text,
};
use crate::storage::rows::{
    round_key, share_key, vote_key, OfRound, OfShare, RoundKey, ShareColumns, ShareKey, ShareRow,
};
use crate::storage::table::{keys_of, Filter, Order, Row};
use crate::storage::tables::{ran, Tables, VotingTables};
use crate::storage::urls::{json_of_strings, json_to_strings, strings_of_json, strings_to_json};
use crate::text::{decimal, str_eq};
use crate::types::{
    all_or_first, answers, lemma_next_item, texts_of, Bytes, Fault, Message, Modeled,
    ShareDelegationRecord, ShareModel, Text, VotingError,
};
use super::votes::{
    choice_missing, choice_missing_error, intent_of, load_ballot_intent,
    load_vote_choice_for_intent_check, vote_place, vote_place_text,
};

verus! {

/// A share may be handled if nothing was decided for its proposal, or if the
/// vote that it is a share of has the choice that was decided.
pub open spec fn share_fits_intent(
    tables: Tables,
    round_id: Text,
    wallet_id: Text,
    bundle_index: u32,
    proposal_id: u32,
) -> Result<(), Fault> {
    let key = vote_key(round_id, wallet_id, bundle_index as int, proposal_id as int);
    let place = vote_place(round_id, wallet_id, bundle_index, proposal_id);
    match intent_of(tables, round_key(round_id, wallet_id), proposal_id) {
        None => Ok(()),
        Some(intent) => if intent.skipped != 0 {
            Err(
                Fault::InvalidInput("cannot record share delegation for skipped proposal "@ + place),
            )
        } else if intent.choice is None {
            Err(choice_missing(round_id, wallet_id, proposal_id))
        } else if tables.votes.contains_key(key) && tables.votes[key].choice
            == intent.choice->Some_0 {
            Ok(())
        } else {
            Err(
                Fault::InvalidInput(
                    "share delegation conflicts with ballot intent for "@ + place,
                ),
            )
        },
    }
}

fn ensure_share_matches_ballot_intent(
    tables: &VotingTables,
    round_id: &str,
    wallet_id: &str,
    bundle_index: u32,
    proposal_id: u32,
) -> (r: Result<(), VotingError>)
    ensures
        answers(
            r,
            share_fits_intent(tables@, round_id@, wallet_id@, bundle_index, proposal_id),
        ),
{
    let (skipped, choice) = match load_ballot_intent(tables, round_id, wallet_id, proposal_id) {
        Some(intent) => intent,
        None => return Ok(()),
    };
    if skipped != 0 {
        return Err(
            Message::new("cannot record share delegation for skipped proposal ").text(
                vote_place_text(round_id, wallet_id, bundle_index, proposal_id).as_str(),
            ).invalid(),
        );
    }
    let choice: i64 = match choice {
        Some(choice) => choice,
        None => return Err(choice_missing_error(round_id, wallet_id, proposal_id)),
    };
    let fits = match load_vote_choice_for_intent_check(
        tables,
        round_id,
        wallet_id,
        bundle_index,
        proposal_id,
    ) {
        Some(vote_choice) => vote_choice == choice,
        None => false,
    };
    if fits {
        return Ok(());
    }
    Err(
        Message::new("share delegation conflicts with ballot intent for ").text(
            vote_place_text(round_id, wallet_id, bundle_index, proposal_id).as_str(),
        ).invalid(),
    )
}

/// A share is recorded as sent to some servers. Recording it again, with the
/// same nullifier, replaces the servers and the time of submission and keeps
/// the rest; with another nullifier it is refused.
pub open spec fn record_share_outcome(
    tables: Tables,
    round_id: Text,
    wallet_id: Text,
    bundle_index: u32,
    proposal_id: u32,
    share_index: u32,
    sent_to_urls: Seq<Text>,
    nullifier: Bytes,
    submit_at: u64,
    now: u64,
) -> Result<Tables, Fault> {
    let key = share_key(
        round_id,
        wallet_id,
        bundle_index as int,
        proposal_id as int,
        share_index as int,
    );
    match share_fits_intent(tables, round_id, wallet_id, bundle_index, proposal_id) {
        Err(fault) => Err(fault),
        Ok(_) => if tables.share_delegations.contains_key(key) {
            if tables.share_delegations[key].nullifier != nullifier {
                Err(
                    Fault::InvalidInput(
                        "share nullifier conflict for "@ + vote_place(
                            round_id,
                            wallet_id,
                            bundle_index,
                            proposal_id,
                        ) + ", share="@ + decimal(share_index as int),
                    ),
                )
            } else {
                Ok(
                    with_share(
                        tables,
                        key,
                        ShareColumns {
                            sent_to_urls: json_of_strings(sent_to_urls),
                            submit_at: submit_at as i64,
                            ..tables.share_delegations[key]
                        },
                    ),
                )
            }
        } else if !tables.bundles.contains_key(key.vote.bundle) {
            Err(Fault::Internal("failed to record share delegation: "@ + no_parent()))
        } else {
            Ok(
                with_share(
                    tables,
                    key,
                    ShareColumns {
                        sent_to_urls: json_of_strings(sent_to_urls),
                        nullifier,
                        confirmed: 0,
                        submit_at: submit_at as i64,
                        created_at: now as i64,
                    },
                ),
            )
        },
    }
}

/// The tables with a share stored.
pub open spec fn with_share(tables: Tables, key: ShareKey, share: ShareColumns) -> Tables {
    Tables { share_delegations: tables.share_delegations.insert(key, share), ..tables }
}

/// The servers that a share was sent to are read from its row.
pub open spec fn sent_to(tables: Tables, key: ShareKey, urls: Seq<Text>) -> bool {
    tables.share_delegations.contains_key(key) && strings_of_json(
        tables.share_delegations[key].sent_to_urls,
    ) == Ok::<Seq<Text>, Text>(urls)
}

/// Records at `now` that a share was sent to helper servers.
///
/// The nullifier is that of the share in the commitment bundle of its vote.
pub fn record_share_delegation(
    tables: &mut VotingTables,
    round_id: &str,
    wallet_id: &str,
    bundle_index: u32,
    proposal_id: u32,
    share_index: u32,
    sent_to_urls: &[String],
    nullifier: &[u8],
    submit_at: u64,
    now: u64,
) -> (r: Result<(), VotingError>)
    ensures
        ran(
            r,
            record_share_outcome(
                old(tables)@,
                round_id@,
                wallet_id@,
                bundle_index,
                proposal_id,
                share_index,
                texts_of(sent_to_urls@),
                nullifier@,
                submit_at,
                now,
            ),
            old(tables)@,
            final(tables)@,
        ),
        r is Ok ==> sent_to(
            final(tables)@,
            share_key(
                round_id@,
                wallet_id@,
                bundle_index as int,
                proposal_id as int,
                share_index as int,
            ),
            texts_of(sent_to_urls@),
        ),
{
    if let Err(error) = ensure_share_matches_ballot_intent(
        tables,
        round_id,
        wallet_id,
        bundle_index,
        proposal_id,
    ) {
        return Err(error);
    }
    let urls = match strings_to_json(sent_to_urls) {
        Ok(json) => json,
        Err(reason) => return Err(
            Message::new("failed to serialize sent_to_urls: ").text(reason.as_str()).internal(),
        ),
    };
    match tables.share_delegations.take(
        &OfShare {
            round_id,
            wallet_id,
            bundle_index: bundle_index as i64,
            proposal_id: proposal_id as i64,
            share_index: share_index as i64,
        },
    ) {
        Some(mut row) => {
            let ghost key = row.key();
            let conflict = !bytes_eq(row.nullifier.as_slice(), nullifier);
            if !conflict {
                row.sent_to_urls = urls;
                row.submit_at = submit_at as i64;
            }
            tables.share_delegations.put(row);
            assert(tables@.share_delegations =~= old(tables)@.share_delegations.insert(
                key,
                row.data(),
            ));
            if conflict {
                assert(tables@.share_delegations =~= old(tables)@.share_delegations);
                return Err(
                    Message::new("share nullifier conflict for ").text(
                        vote_place_text(round_id, wallet_id, bundle_index, proposal_id).as_str(),
                    ).text(", share=").number(share_index as i128).invalid(),
                );
            }
            Ok(())
        },
        None => {
            if tables.bundle(round_id, wallet_id, bundle_index).is_none() {
                return Err(
                    Message::new("failed to record share delegation: ").text(
                        no_parent_text(),
                    ).internal(),
                );
            }
            tables.share_delegations.put(
                ShareRow {
                    round_id: round_id.to_owned(),
                    wallet_id: wallet_id.to_owned(),
                    bundle_index: bundle_index as i64,
                    proposal_id: proposal_id as i64,
                    share_index: share_index as i64,
                    sent_to_urls: urls,
                    nullifier: copy_bytes(nullifier),
                    confirmed: 0,
                    submit_at: submit_at as i64,
                    created_at: now as i64,
                },
            );
            Ok(())
        },
    }
}

/// The shares of a round that a condition accepts, each one once, by proposal,
/// share and bundle.
pub open spec fn lists_shares(
    keys: Seq<ShareKey>,
    tables: Tables,
    round: RoundKey,
    unconfirmed_only: bool,
) -> bool {
    &&& keys.no_duplicates()
    &&& keys.to_set() == tables.share_delegations.dom().filter(
        |key: ShareKey|
            key.vote.bundle.round == round && (unconfirmed_only
                ==> tables.share_delegations[key].confirmed == 0),
    )
    &&& forall|i: int, j: int|
        0 <= i < j < keys.len() ==> crate::storage::table::rank_le(
            share_rank(#[trigger] keys[i]),
            share_rank(#[trigger] keys[j]),
        )
}

/// The place of a share among the shares of a round.
pub open spec fn share_rank(key: ShareKey) -> (int, int, int) {
    (
        key.vote.proposal_id as int,
        key.share_index as int,
        key.vote.bundle.bundle_index as int,
    )
}

/// A number fits in `u32`.
pub open spec fn fits_u32(n: i64) -> bool {
    0 <= n <= u32::MAX
}

/// The numbers of a stored share fit the types of a record.
pub open spec fn share_readable(key: ShareKey, share: ShareColumns) -> Result<(), Fault> {
    let unreadable = |column: int|
        Err::<(), Fault>(
            Fault::Internal("failed to query share delegations: "@ + out_of_range(column)),
        );
    if !(i32::MIN <= share.confirmed <= i32::MAX) {
        unreadable(5)
    } else if !fits_u32(key.vote.bundle.bundle_index) {
        unreadable(0)
    } else if !fits_u32(key.vote.proposal_id) {
        unreadable(1)
    } else if !fits_u32(key.share_index) {
        unreadable(2)
    } else if share.submit_at < 0 {
        unreadable(6)
    } else if share.created_at < 0 {
        unreadable(7)
    } else {
        Ok(())
    }
}

/// A share as it is listed.
pub open spec fn share_record(key: ShareKey, share: ShareColumns) -> Result<ShareModel, Fault> {
    match strings_of_json(share.sent_to_urls) {
        Err(reason) => Err(
            Fault::Internal("failed to deserialize sent_to_urls: "@ + reason),
        ),
        Ok(sent_to_urls) => Ok(
            ShareModel {
                round_id: key.vote.bundle.round.round_id,
                bundle_index: key.vote.bundle.bundle_index as u32,
                proposal_id: key.vote.proposal_id as u32,
                share_index: key.share_index as u32,
                sent_to_urls,
                nullifier: share.nullifier,
                confirmed: share.confirmed != 0,
                submit_at: share.submit_at as u64,
                created_at: share.created_at as u64,
            },
        ),
    }
}

/// The shares under some keys, as they are listed. All rows are read before
/// any list of servers is.
pub open spec fn share_records(keys: Seq<ShareKey>, tables: Tables) -> Result<
    Seq<ShareModel>,
    Fault,
> {
    match all_or_first(readable_shares(keys, tables)) {
        Err(fault) => Err(fault),
        Ok(_) => all_or_first(listed_shares(keys, tables)),
    }
}

/// Whether the rows under some keys can be read.
pub open spec fn readable_shares(keys: Seq<ShareKey>, tables: Tables) -> Seq<Result<(), Fault>> {
    keys.map_values(|key: ShareKey| share_readable(key, tables.share_delegations[key]))
}

/// The rows under some keys as they are listed.
pub open spec fn listed_shares(keys: Seq<ShareKey>, tables: Tables) -> Seq<
    Result<ShareModel, Fault>,
> {
    keys.map_values(|key: ShareKey| share_record(key, tables.share_delegations[key]))
}

struct SharesOf<'a> {
    round_id: &'a str,
    wallet_id: &'a str,
    unconfirmed_only: bool,
}

impl<'a> Filter<ShareRow> for SharesOf<'a> {
    closed spec fn accepts(&self, key: ShareKey, data: ShareColumns) -> bool {
        key.vote.bundle.round == round_key(self.round_id@, self.wallet_id@) && (
        self.unconfirmed_only ==> data.confirmed == 0)
    }

    fn test(&self, row: &ShareRow) -> bool {
        (!self.unconfirmed_only || row.confirmed == 0) && (OfRound {
            round_id: self.round_id,
            wallet_id: self.wallet_id,
        }).test(row)
    }
}

struct ByShare;

impl Order<ShareRow> for ByShare {
    closed spec fn rank(&self, key: ShareKey, data: ShareColumns) -> (int, int, int) {
        share_rank(key)
    }

    fn rank_of(&self, row: &ShareRow) -> (i64, i64, i64) {
        (row.proposal_id, row.share_index, row.bundle_index)
    }
}

fn read_share(row: &ShareRow) -> (r: Result<(), VotingError>)
    ensures
        answers(r, share_readable(row.key(), row.data())),
{
    let max: i64 = u32::MAX as i64;
    let column: u8 = if row.confirmed < i32::MIN as i64 || row.confirmed > i32::MAX as i64 {
        5
    } else if row.bundle_index < 0 || row.bundle_index > max {
        0
    } else if row.proposal_id < 0 || row.proposal_id > max {
        1
    } else if row.share_index < 0 || row.share_index > max {
        2
    } else if row.submit_at < 0 {
        6
    } else if row.created_at < 0 {
        7
    } else {
        return Ok(());
    };
    Err(
        Message::new("failed to query share delegations: ").text(
            out_of_range_text(column).as_str(),
        ).internal(),
    )
}

fn list_share(row: &ShareRow) -> (r: Result<ShareDelegationRecord, VotingError>)
    ensures
        answers(r, share_record(row.key(), row.data())),
{
    match json_to_strings(row.sent_to_urls.as_str()) {
        Ok(sent_to_urls) => Ok(
            ShareDelegationRecord {
                round_id: row.round_id.clone(),
                bundle_index: row.bundle_index as u32,
                proposal_id: row.proposal_id as u32,
                share_index: row.share_index as u32,
                sent_to_urls,
                nullifier: copy_bytes(row.nullifier.as_slice()),
                confirmed: row.confirmed != 0,
                submit_at: row.submit_at as u64,
                created_at: row.created_at as u64,
            },
        ),
        Err(reason) => Err(
            Message::new("failed to deserialize sent_to_urls: ").text(reason.as_str()).internal(),
        ),
    }
}

/// Lists the shares of a round.
pub fn get_share_delegations(tables: &VotingTables, round_id: &str, wallet_id: &str) -> (r: Result<
    Vec<ShareDelegationRecord>,
    VotingError,
>)
    ensures
        exists|keys: Seq<ShareKey>| #[trigger]
            lists_shares(keys, tables@, round_key(round_id@, wallet_id@), false) && answers(
                r,
                share_records(keys, tables@),
            ),
{
    load_share_delegations(tables, round_id, wallet_id, false)
}

/// Lists the shares of a round that are not confirmed.
pub fn get_unconfirmed_delegations(tables: &VotingTables, round_id: &str, wallet_id: &str) -> (r:
    Result<Vec<ShareDelegationRecord>, VotingError>)
    ensures
        exists|keys: Seq<ShareKey>| #[trigger]
            lists_shares(keys, tables@, round_key(round_id@, wallet_id@), true) && answers(
                r,
                share_records(keys, tables@),
            ),
{
    load_share_delegations(tables, round_id, wallet_id, true)
}

fn load_share_delegations(
    tables: &VotingTables,
    round_id: &str,
    wallet_id: &str,
    unconfirmed_only: bool,
) -> (r: Result<Vec<ShareDelegationRecord>, VotingError>)
    ensures
        exists|keys: Seq<ShareKey>| #[trigger]
            lists_shares(keys, tables@, round_key(round_id@, wallet_id@), unconfirmed_only)
                && answers(r, share_records(keys, tables@)),
{
    let filter = SharesOf { round_id, wallet_id, unconfirmed_only };
    let rows = tables.share_delegations.select(&filter, &ByShare);
    let ghost round = round_key(round_id@, wallet_id@);
    let ghost keys = keys_of(rows@);
    let ghost readable = readable_shares(keys, tables@);
    let ghost listed = listed_shares(keys, tables@);
    proof {
        assert(keys.to_set() =~= tables@.share_delegations.dom().filter(
            |key: ShareKey|
                key.vote.bundle.round == round && (unconfirmed_only
                    ==> tables@.share_delegations[key].confirmed == 0),
        ));
        assert(lists_shares(keys, tables@, round, unconfirmed_only));
        assert(readable.take(0) =~= Seq::empty());
        assert(listed.take(0) =~= Seq::empty());
    }
    let ghost mut units: Seq<()> = Seq::empty();
    let mut i: usize = 0;
    while i < rows.len()
        invariant
            i <= rows@.len(),
            keys == keys_of(rows@),
            readable == readable_shares(keys, tables@),
            lists_shares(keys, tables@, round_key(round_id@, wallet_id@), unconfirmed_only),
            forall|j: int|
                0 <= j < rows@.len() ==> tables@.share_delegations[(#[trigger] rows@[j]).key()]
                    == rows@[j].data(),
            all_or_first(readable.take(i as int)) == Ok::<Seq<()>, Fault>(units),
        decreases rows.len() - i,
    {
        let read = read_share(rows[i]);
        proof {
            lemma_next_item(readable, i as int, units);
            units = units.push(());
        }
        if let Err(error) = read {
            return Err(error);
        }
        i += 1;
    }
    assert(readable.take(i as int) =~= readable);
    let mut records: Vec<ShareDelegationRecord> = Vec::new();
    assert(records.model() =~= Seq::empty());
    let mut n: usize = 0;
    while n < rows.len()
        invariant
            n <= rows@.len(),
            keys == keys_of(rows@),
            readable == readable_shares(keys, tables@),
            all_or_first(readable) is Ok,
            listed == listed_shares(keys, tables@),
            lists_shares(keys, tables@, round_key(round_id@, wallet_id@), unconfirmed_only),
            forall|j: int|
                0 <= j < rows@.len() ==> tables@.share_delegations[(#[trigger] rows@[j]).key()]
                    == rows@[j].data(),
            all_or_first(listed.take(n as int)) == Ok::<Seq<ShareModel>, Fault>(records.model()),
        decreases rows.len() - n,
    {
        let record = list_share(rows[n]);
        proof {
            lemma_next_item(listed, n as int, records.model());
        }
        match record {
            Ok(record) => {
                let ghost before = records.model();
                records.push(record);
                assert(records.model() =~= before.push(record.model()));
            },
            Err(error) => return Err(error),
        }
        n += 1;
    }
    assert(listed.take(n as int) =~= listed);
    Ok(records)
}

/// A share is marked as confirmed.
pub open spec fn mark_confirmed_outcome(
    tables: Tables,
    round_id: Text,
    wallet_id: Text,
    bundle_index: u32,
    proposal_id: u32,
    share_index: u32,
) -> Result<Tables, Fault> {
    let key = share_key(
        round_id,
        wallet_id,
        bundle_index as int,
        proposal_id as int,
        share_index as int,
    );
    match share_fits_intent(tables, round_id, wallet_id, bundle_index, proposal_id) {
        Err(fault) => Err(fault),
        Ok(_) => if !tables.share_delegations.contains_key(key) {
            Err(
                Fault::Internal(
                    "no share delegation found: round="@ + round_id + ", bundle="@ + decimal(
                        bundle_index as int,
                    ) + ", proposal="@ + decimal(proposal_id as int) + ", share="@ + decimal(
                        share_index as int,
                    ),
                ),
            )
        } else {
            Ok(
                with_share(
                    tables,
                    key,
                    ShareColumns { confirmed: 1, ..tables.share_delegations[key] },
                ),
            )
        },
    }
}

/// Marks a share as confirmed on chain.
pub fn mark_share_confirmed(
    tables: &mut VotingTables,
    round_id: &str,
    wallet_id: &str,
    bundle_index: u32,
    proposal_id: u32,
    share_index: u32,
) -> (r: Result<(), VotingError>)
    ensures
        ran(
            r,
            mark_confirmed_outcome(
                old(tables)@,
                round_id@,
                wallet_id@,
                bundle_index,
                proposal_id,
                share_index,
            ),
            old(tables)@,
            final(tables)@,
        ),
{
    if let Err(error) = ensure_share_matches_ballot_intent(
        tables,
        round_id,
        wallet_id,
        bundle_index,
        proposal_id,
    ) {
        return Err(error);
    }
    match tables.share_delegations.take(
        &OfShare {
            round_id,
            wallet_id,
            bundle_index: bundle_index as i64,
            proposal_id: proposal_id as i64,
            share_index: share_index as i64,
        },
    ) {
        Some(mut row) => {
            let ghost key = row.key();
            row.confirmed = 1;
            tables.share_delegations.put(row);
            assert(tables@.share_delegations =~= old(tables)@.share_delegations.insert(
                key,
                row.data(),
            ));
            Ok(())
        },
        None => Err(
            Message::new("no share delegation found: round=").text(round_id).text(
                ", bundle=",
            ).number(bundle_index as i128).text(", proposal=").number(proposal_id as i128).text(
                ", share=",
            ).number(share_index as i128).internal(),
        ),
    }
}

/// A list of servers, with those of another list behind it that it does not
/// have yet.
pub open spec fn with_new_urls(urls: Seq<Text>, new_urls: Seq<Text>) -> Seq<Text>
    decreases new_urls.len(),
{
    if new_urls.len() == 0 {
        urls
    } else {
        let front = with_new_urls(urls, new_urls.drop_last());
        if front.contains(new_urls.last()) {
            front
        } else {
            front.push(new_urls.last())
        }
    }
}

/// Adding servers keeps those that were there, in their order and in front,
/// ends with all of the new ones, with nothing that is in neither list. What
/// comes behind those that were there are other servers, each listed once.
pub proof fn law_with_new_urls(urls: Seq<Text>, new_urls: Seq<Text>)
    ensures
        urls.len() <= with_new_urls(urls, new_urls).len(),
        with_new_urls(urls, new_urls).take(urls.len() as int) == urls,
        forall|url: Text| #[trigger]
            with_new_urls(urls, new_urls).contains(url) <==> urls.contains(url)
                || new_urls.contains(url),
        with_new_urls(urls, new_urls).skip(urls.len() as int).no_duplicates(),
        forall|i: int|
            urls.len() <= i < with_new_urls(urls, new_urls).len() ==> !urls.contains(
                #[trigger] with_new_urls(urls, new_urls)[i],
            ),
    decreases new_urls.len(),
{
    let all = with_new_urls(urls, new_urls);
    if new_urls.len() == 0 {
        assert(all.take(urls.len() as int) =~= urls);
    } else {
        let init = new_urls.drop_last();
        let last = new_urls.last();
        law_with_new_urls(urls, init);
        let front = with_new_urls(urls, init);
        assert forall|url: Text| #[trigger] all.contains(url) <==> urls.contains(url)
            || new_urls.contains(url) by {
            assert(new_urls =~= init.push(last));
            assert(new_urls.contains(url) <==> init.contains(url) || url == last) by {
                if init.contains(url) {
                    let i = choose|i: int| 0 <= i < init.len() && init[i] == url;
                    assert(new_urls[i] == url);
                }
                if new_urls.contains(url) && url != last {
                    let i = choose|i: int| 0 <= i < new_urls.len() && new_urls[i] == url;
                    assert(init[i] == url);
                }
                assert(new_urls[new_urls.len() - 1] == last);
            }
            if !front.contains(last) {
                assert(all.contains(url) <==> front.contains(url) || url == last) by {
                    if front.contains(url) {
                        let i = choose|i: int| 0 <= i < front.len() && front[i] == url;
                        assert(all[i] == url);
                    }
                    if all.contains(url) && url != last {
                        let i = choose|i: int| 0 <= i < all.len() && all[i] == url;
                        assert(front[i] == url);
                    }
                    assert(all[front.len() as int] == last);
                }
            }
            assert(front.contains(url) <==> urls.contains(url) || init.contains(url));
        }
        assert(all.take(urls.len() as int) =~= front.take(urls.len() as int));
        if !front.contains(last) {
            let tail = front.skip(urls.len() as int);
            assert(all.skip(urls.len() as int) =~= tail.push(last));
            assert(!tail.contains(last)) by {
                if tail.contains(last) {
                    let i = choose|i: int| 0 <= i < tail.len() && tail[i] == last;
                    assert(front[urls.len() + i] == last);
                }
            }
        }
    }
}

/// Servers are added one after the other: one that is listed is not added
/// again, another one comes last, and adding some and then more is adding all
/// of them.
pub proof fn law_new_urls_one_by_one(urls: Seq<Text>, url: Text, some: Seq<Text>, more: Seq<Text>)
    ensures
        with_new_urls(urls, seq![url]) == if urls.contains(url) {
            urls
        } else {
            urls.push(url)
        },
        with_new_urls(urls, some + more) == with_new_urls(with_new_urls(urls, some), more),
        with_new_urls(urls, Seq::empty()) == urls,
    decreases more.len(),
{
    let one = seq![url];
    assert(one.drop_last() =~= Seq::empty());
    reveal_with_fuel(with_new_urls, 2);
    if more.len() == 0 {
        assert(some + more =~= some);
    } else {
        law_new_urls_one_by_one(urls, url, some, more.drop_last());
        assert((some + more).drop_last() =~= some + more.drop_last());
        assert((some + more).last() == more.last());
    }
}

/// Servers are added to those that a share was sent to, and the share is due
/// at once.
pub open spec fn add_servers_outcome(
    tables: Tables,
    round_id: Text,
    wallet_id: Text,
    bundle_index: u32,
    proposal_id: u32,
    share_index: u32,
    new_urls: Seq<Text>,
) -> Result<Tables, Fault> {
    let key = share_key(
        round_id,
        wallet_id,
        bundle_index as int,
        proposal_id as int,
        share_index as int,
    );
    match share_fits_intent(tables, round_id, wallet_id, bundle_index, proposal_id) {
        Err(fault) => Err(fault),
        Ok(_) => if !tables.share_delegations.contains_key(key) {
            Err(Fault::Internal("failed to read sent_to_urls for update: "@ + no_row()))
        } else {
            match strings_of_json(tables.share_delegations[key].sent_to_urls) {
                Err(reason) => Err(
                    Fault::Internal("failed to deserialize sent_to_urls: "@ + reason),
                ),
                Ok(urls) => Ok(
                    with_share(
                        tables,
                        key,
                        ShareColumns {
                            sent_to_urls: json_of_strings(with_new_urls(urls, new_urls)),
                            submit_at: 0,
                            ..tables.share_delegations[key]
                        },
                    ),
                ),
            }
        },
    }
}

/// The list holds the string.
fn lists_url(urls: &Vec<String>, url: &str) -> (r: bool)
    ensures
        r == texts_of(urls@).contains(url@),
{
    let mut i: usize = 0;
    while i < urls.len()
        invariant
            i <= urls@.len(),
            forall|j: int| 0 <= j < i ==> (#[trigger] urls@[j])@ != url@,
        decreases urls.len() - i,
    {
        if str_eq(urls[i].as_str(), url) {
            assert(texts_of(urls@)[i as int] == url@);
            return true;
        }
        i += 1;
    }
    proof {
        let texts = texts_of(urls@);
        if texts.contains(url@) {
            let j = choose|j: int| 0 <= j < texts.len() && texts[j] == url@;
            assert(urls@[j]@ == url@);
        }
    }
    false
}

/// Adds servers to a list that does not have them yet.
pub fn append_new_urls(urls: Vec<String>, new_urls: &[String]) -> (all: Vec<String>)
    ensures
        texts_of(all@) == with_new_urls(texts_of(urls@), texts_of(new_urls@)),
{
    let mut all: Vec<String> = urls;
    let mut i: usize = 0;
    while i < new_urls.len()
        invariant
            i <= new_urls@.len(),
            texts_of(all@) == with_new_urls(
                texts_of(urls@),
                texts_of(new_urls@).take(i as int),
            ),
        decreases new_urls.len() - i,
    {
        let url = new_urls[i].as_str();
        proof {
            assert(texts_of(new_urls@).take(i + 1).drop_last() =~= texts_of(new_urls@).take(
                i as int,
            ));
        }
        if !lists_url(&all, url) {
            let ghost before = all@;
            all.push(new_urls[i].clone());
            assert(texts_of(all@) =~= texts_of(before).push(url@));
        }
        i += 1;
    }
    assert(texts_of(new_urls@).take(i as int) =~= texts_of(new_urls@));
    all
}

/// Adds servers to those that a share was sent to.
///
/// This is for a share that is overdue and is sent to more servers.
pub fn add_sent_servers(
    tables: &mut VotingTables,
    round_id: &str,
    wallet_id: &str,
    bundle_index: u32,
    proposal_id: u32,
    share_index: u32,
    new_urls: &[String],
) -> (r: Result<(), VotingError>)
    ensures
        ran(
            r,
            add_servers_outcome(
                old(tables)@,
                round_id@,
                wallet_id@,
                bundle_index,
                proposal_id,
                share_index,
                texts_of(new_urls@),
            ),
            old(tables)@,
            final(tables)@,
        ),
        ({
            let key = share_key(
                round_id@,
                wallet_id@,
                bundle_index as int,
                proposal_id as int,
                share_index as int,
            );
            r is Ok ==> exists|urls: Seq<Text>| #[trigger]
                sent_to(old(tables)@, key, urls) && sent_to(
                    final(tables)@,
                    key,
                    with_new_urls(urls, texts_of(new_urls@)),
                )
        }),
{
    if let Err(error) = ensure_share_matches_ballot_intent(
        tables,
        round_id,
        wallet_id,
        bundle_index,
        proposal_id,
    ) {
        return Err(error);
    }
    let stored = match tables.share(round_id, wallet_id, bundle_index, proposal_id, share_index) {
        Some(row) => row,
        None => return Err(
            Message::new("failed to read sent_to_urls for update: ").text(no_row_text()).internal(),
        ),
    };
    let urls = match json_to_strings(stored.sent_to_urls.as_str()) {
        Ok(urls) => urls,
        Err(reason) => return Err(
            Message::new("failed to deserialize sent_to_urls: ").text(reason.as_str()).internal(),
        ),
    };
    let ghost known = texts_of(urls@);
    let all = append_new_urls(urls, new_urls);
    let json = match strings_to_json(all.as_slice()) {
        Ok(json) => json,
        Err(reason) => return Err(
            Message::new("failed to serialize updated sent_to_urls: ").text(
                reason.as_str(),
            ).internal(),
        ),
    };
    if let Some(mut row) = tables.share_delegations.take(
        &OfShare {
            round_id,
            wallet_id,
            bundle_index: bundle_index as i64,
            proposal_id: proposal_id as i64,
            share_index: share_index as i64,
        },
    ) {
        let ghost key = row.key();
        row.sent_to_urls = json;
        row.submit_at = 0;
        tables.share_delegations.put(row);
        assert(sent_to(old(tables)@, key, known));
        assert(tables@.share_delegations =~= old(tables)@.share_delegations.insert(
            key,
            row.data(),
        ));
    }
    Ok(())
}

} // verus!
