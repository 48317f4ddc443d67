//! Laws of shares.

use vstd::prelude::*;

use crate::storage::queries::shares::{
    add_servers_outcome, listed_shares, lists_shares, mark_confirmed_outcome, readable_shares,
    record_share_outcome, share_fits_intent, share_rank, share_record, share_records,
};
use crate::storage::queries::votes::intent_of;
use crate::storage::rows::{round_key, share_key, vote_key, RoundKey, ShareKey};
use crate::storage::table::rank_le;
use crate::storage::tables::Tables;
use crate::types::{Bytes, Fault, ShareModel, Text};

verus! {

/// A stored share is not confirmed.
pub open spec fn is_unconfirmed(tables: Tables, key: ShareKey) -> bool {
    tables.share_delegations[key].confirmed == 0
}

/// Shares stand by proposal, share and bundle.
spec fn in_share_order(keys: Seq<ShareKey>) -> bool {
    forall|i: int, j: int|
        0 <= i < j < keys.len() ==> rank_le(
            share_rank(#[trigger] keys[i]),
            share_rank(#[trigger] keys[j]),
        )
}

/// A share is handled exactly if nothing was decided for its proposal, or if
/// the proposal is not skipped and the vote has the choice that was decided.
pub proof fn law_shares_follow_intent(
    tables: Tables,
    round_id: Text,
    wallet_id: Text,
    bundle_index: u32,
    proposal_id: u32,
)
    ensures
        share_fits_intent(tables, round_id, wallet_id, bundle_index, proposal_id) is Ok <==> {
            let key = vote_key(round_id, wallet_id, bundle_index as int, proposal_id as int);
            match intent_of(tables, round_key(round_id, wallet_id), proposal_id) {
                None => true,
                Some(intent) => intent.skipped == 0 && tables.votes.contains_key(key)
                    && intent.choice == Some(tables.votes[key].choice),
            }
        },
{
}

/// A share that is recorded again with its nullifier keeps its confirmation and
/// its time of creation; with another nullifier it is refused.
pub proof fn law_recorded_share_is_kept(
    tables: Tables,
    round_id: Text,
    wallet_id: Text,
    bundle_index: u32,
    proposal_id: u32,
    share_index: u32,
    sent_to_urls: Seq<Text>,
    nullifier: Bytes,
    submit_at: u64,
    now: u64,
)
    requires
        share_fits_intent(tables, round_id, wallet_id, bundle_index, proposal_id) is Ok,
        tables.share_delegations.contains_key(
            share_key(
                round_id,
                wallet_id,
                bundle_index as int,
                proposal_id as int,
                share_index as int,
            ),
        ),
    ensures
        ({
            let key = share_key(
                round_id,
                wallet_id,
                bundle_index as int,
                proposal_id as int,
                share_index as int,
            );
            let before = tables.share_delegations[key];
            let recorded = record_share_outcome(
                tables,
                round_id,
                wallet_id,
                bundle_index,
                proposal_id,
                share_index,
                sent_to_urls,
                nullifier,
                submit_at,
                now,
            );
            if nullifier == before.nullifier {
                &&& recorded matches Ok(next)
                &&& next.share_delegations[key].nullifier == before.nullifier
                &&& next.share_delegations[key].confirmed == before.confirmed
                &&& next.share_delegations[key].created_at == before.created_at
            } else {
                recorded matches Err(Fault::InvalidInput(_))
            }
        }),
{
}

/// Two lists of the shares of a round in their order, each share once, are the
/// same list if they hold the same shares.
proof fn lemma_one_listing(a: Seq<ShareKey>, b: Seq<ShareKey>, round: RoundKey)
    requires
        a.no_duplicates(),
        b.no_duplicates(),
        in_share_order(a),
        in_share_order(b),
        forall|i: int| 0 <= i < a.len() ==> (#[trigger] a[i]).vote.bundle.round == round,
        forall|key: ShareKey| #[trigger] a.contains(key) <==> b.contains(key),
    ensures
        a == b,
    decreases a.len(),
{
    if a.len() == 0 {
        if b.len() > 0 {
            assert(b.contains(b[0]));
            assert(a.contains(b[0]));
        }
        assert(a =~= b);
    } else {
        let x = a.last();
        assert(a.contains(a[a.len() - 1]));
        assert(b.contains(x));
        let j = choose|j: int| 0 <= j < b.len() && b[j] == x;
        let y = b.last();
        assert(b.contains(b[b.len() - 1]));
        assert(a.contains(y));
        let i = choose|i: int| 0 <= i < a.len() && a[i] == y;
        assert(rank_le(share_rank(b[j]), share_rank(y)) || j == b.len() - 1);
        assert(rank_le(share_rank(a[i]), share_rank(x)) || i == a.len() - 1);
        assert(x == y);
        let rest_a = a.drop_last();
        let rest_b = b.drop_last();
        assert forall|key: ShareKey| #[trigger] rest_a.contains(key) <==> rest_b.contains(key) by {
            if rest_a.contains(key) {
                let k = choose|k: int| 0 <= k < rest_a.len() && rest_a[k] == key;
                assert(a[k] == key);
                assert(a.contains(key));
                assert(b.contains(key));
                let l = choose|l: int| 0 <= l < b.len() && b[l] == key;
                assert(rest_b[l] == key);
            }
            if rest_b.contains(key) {
                let k = choose|k: int| 0 <= k < rest_b.len() && rest_b[k] == key;
                assert(b[k] == key);
                assert(b.contains(key));
                assert(a.contains(key));
                let l = choose|l: int| 0 <= l < a.len() && a[l] == key;
                assert(rest_a[l] == key);
            }
        }
        lemma_one_listing(rest_a, rest_b, round);
        assert(rest_a.push(x) =~= a);
        assert(rest_b.push(y) =~= b);
    }
}

/// What is left of a list after some of it is taken out keeps its order and
/// holds nothing twice.
proof fn lemma_filter_keeps_order(keys: Seq<ShareKey>, kept: spec_fn(ShareKey) -> bool)
    requires
        keys.no_duplicates(),
        in_share_order(keys),
    ensures
        keys.filter(kept).no_duplicates(),
        in_share_order(keys.filter(kept)),
        forall|key: ShareKey| #[trigger]
            keys.filter(kept).contains(key) <==> keys.contains(key) && kept(key),
    decreases keys.len(),
{
    reveal(Seq::filter);
    if keys.len() > 0 {
        let front = keys.drop_last();
        let last = keys.last();
        lemma_filter_keeps_order(front, kept);
        let rest = front.filter(kept);
        let all = keys.filter(kept);
        assert forall|key: ShareKey| #[trigger] keys.contains(key) <==> front.contains(key) || key
            == last by {
            if front.contains(key) {
                let i = choose|i: int| 0 <= i < front.len() && front[i] == key;
                assert(keys[i] == key);
            }
            if keys.contains(key) && key != last {
                let i = choose|i: int| 0 <= i < keys.len() && keys[i] == key;
                assert(front[i] == key);
            }
            assert(keys[keys.len() - 1] == last);
        }
        assert forall|i: int| 0 <= i < rest.len() implies #[trigger] rest[i] != last && rank_le(
            share_rank(rest[i]),
            share_rank(last),
        ) by {
            assert(rest.contains(rest[i]));
            assert(front.contains(rest[i]));
            let n = choose|n: int| 0 <= n < front.len() && front[n] == rest[i];
            assert(keys[n] == rest[i]);
            assert(keys[keys.len() - 1] == last);
        }
        if kept(last) {
            assert(all == rest.push(last));
            assert forall|key: ShareKey| #[trigger] all.contains(key) <==> rest.contains(key)
                || key == last by {
                if rest.contains(key) {
                    let i = choose|i: int| 0 <= i < rest.len() && rest[i] == key;
                    assert(all[i] == key);
                }
                if all.contains(key) && key != last {
                    let i = choose|i: int| 0 <= i < all.len() && all[i] == key;
                    assert(rest[i] == key);
                }
                assert(all[rest.len() as int] == last);
            }
        }
    }
}

/// If all shares of a list can be listed, so can those that are not confirmed,
/// and their records are the records without confirmation.
proof fn lemma_records_of_unconfirmed(keys: Seq<ShareKey>, tables: Tables)
    requires
        share_records(keys, tables) is Ok,
    ensures
        share_records(keys.filter(|key: ShareKey| is_unconfirmed(tables, key)), tables) == Ok::<
            Seq<ShareModel>,
            Fault,
        >(share_records(keys, tables)->Ok_0.filter(|record: ShareModel| !record.confirmed)),
    decreases keys.len(),
{
    reveal(Seq::filter);
    let kept = |key: ShareKey| is_unconfirmed(tables, key);
    let open = |record: ShareModel| !record.confirmed;
    let records = share_records(keys, tables)->Ok_0;
    if keys.len() == 0 {
        assert(keys.filter(kept) =~= keys);
        assert(records =~= Seq::empty());
    } else {
        let front = keys.drop_last();
        let last = keys.last();
        assert(readable_shares(keys, tables).drop_last() =~= readable_shares(front, tables));
        assert(listed_shares(keys, tables).drop_last() =~= listed_shares(front, tables));
        lemma_records_of_unconfirmed(front, tables);
        let before = share_records(front, tables)->Ok_0;
        let record = share_record(last, tables.share_delegations[last])->Ok_0;
        assert(records == before.push(record));
        assert(records.drop_last() =~= before);
        let rest = front.filter(kept);
        if kept(last) {
            let all = rest.push(last);
            assert(keys.filter(kept) == all);
            assert(readable_shares(all, tables).drop_last() =~= readable_shares(rest, tables));
            assert(listed_shares(all, tables).drop_last() =~= listed_shares(rest, tables));
        }
    }
}

/// The unconfirmed shares of a round are listed as they stand in the list of
/// all of them, in their order. Where all shares can be listed, the records of
/// the unconfirmed ones are those that say they are not confirmed.
pub proof fn law_unconfirmed_shares_are_a_filter(
    tables: Tables,
    round: RoundKey,
    all: Seq<ShareKey>,
    unconfirmed: Seq<ShareKey>,
)
    requires
        lists_shares(all, tables, round, false),
        lists_shares(unconfirmed, tables, round, true),
    ensures
        unconfirmed == all.filter(|key: ShareKey| is_unconfirmed(tables, key)),
        share_records(all, tables) matches Ok(records) ==> share_records(unconfirmed, tables)
            == Ok::<Seq<ShareModel>, Fault>(
            records.filter(|record: ShareModel| !record.confirmed),
        ),
{
    let kept = |key: ShareKey| is_unconfirmed(tables, key);
    let filtered = all.filter(kept);
    lemma_filter_keeps_order(all, kept);
    assert forall|key: ShareKey| #[trigger] unconfirmed.contains(key) <==> filtered.contains(
        key,
    ) by {
        assert(unconfirmed.to_set().contains(key) <==> unconfirmed.contains(key));
        assert(all.to_set().contains(key) <==> all.contains(key));
    }
    assert forall|i: int| 0 <= i < unconfirmed.len() implies (
    #[trigger] unconfirmed[i]).vote.bundle.round == round by {
        assert(unconfirmed.contains(unconfirmed[i]));
        assert(unconfirmed.to_set().contains(unconfirmed[i]));
    }
    lemma_one_listing(unconfirmed, filtered, round);
    if share_records(all, tables) is Ok {
        lemma_records_of_unconfirmed(all, tables);
    }
}

/// A share that is marked as confirmed is no longer among the unconfirmed ones,
/// and marking it again changes nothing.
pub proof fn law_confirmation_is_final(
    tables: Tables,
    round_id: Text,
    wallet_id: Text,
    bundle_index: u32,
    proposal_id: u32,
    share_index: u32,
)
    requires
        mark_confirmed_outcome(
            tables,
            round_id,
            wallet_id,
            bundle_index,
            proposal_id,
            share_index,
        ) is Ok,
    ensures
        ({
            let key = share_key(
                round_id,
                wallet_id,
                bundle_index as int,
                proposal_id as int,
                share_index as int,
            );
            let next = mark_confirmed_outcome(
                tables,
                round_id,
                wallet_id,
                bundle_index,
                proposal_id,
                share_index,
            )->Ok_0;
            &&& next.share_delegations[key].confirmed != 0
            &&& mark_confirmed_outcome(
                next,
                round_id,
                wallet_id,
                bundle_index,
                proposal_id,
                share_index,
            ) == Ok::<Tables, Fault>(next)
        }),
{
    let next = mark_confirmed_outcome(
        tables,
        round_id,
        wallet_id,
        bundle_index,
        proposal_id,
        share_index,
    )->Ok_0;
    let again = mark_confirmed_outcome(
        next,
        round_id,
        wallet_id,
        bundle_index,
        proposal_id,
        share_index,
    )->Ok_0;
    assert(again.share_delegations =~= next.share_delegations);
}

/// Adding servers to a share makes it due at once and keeps its nullifier, its
/// confirmation and its time of creation.
pub proof fn law_added_servers_keep_share(
    tables: Tables,
    round_id: Text,
    wallet_id: Text,
    bundle_index: u32,
    proposal_id: u32,
    share_index: u32,
    new_urls: Seq<Text>,
)
    requires
        add_servers_outcome(
            tables,
            round_id,
            wallet_id,
            bundle_index,
            proposal_id,
            share_index,
            new_urls,
        ) is Ok,
    ensures
        ({
            let key = share_key(
                round_id,
                wallet_id,
                bundle_index as int,
                proposal_id as int,
                share_index as int,
            );
            let before = tables.share_delegations[key];
            let after = add_servers_outcome(
                tables,
                round_id,
                wallet_id,
                bundle_index,
                proposal_id,
                share_index,
                new_urls,
            )->Ok_0.share_delegations[key];
            &&& after.submit_at == 0
            &&& after.nullifier == before.nullifier
            &&& after.confirmed == before.confirmed
            &&& after.created_at == before.created_at
        }),
{
}

} // verus!
