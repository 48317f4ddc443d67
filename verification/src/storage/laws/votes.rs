//! Laws of votes.

use vstd::prelude::*;

use crate::bytes::le_value;
use crate::storage::field::pallas_modulus;
use crate::storage::queries::confirmations::{
    authority_of, has_submitted, has_submitted_any, lists_confirmed, van_tree_entries,
    van_tree_entry, zkp2_outcome, VanTreeModel, Zkp2DelegationData, Zkp2Model,
};
use crate::storage::queries::votes::{
    clear_stale_outcome, conflicting_bundles, intent_conflict_outcome, proposal_shares,
    record_submission_outcome, store_vote_outcome, vote_record, vote_tx_hash_outcome,
};
use crate::storage::rows::{
    bundle_key, round_key, vote_key, BundleKey, IntentKey, RoundKey, ShareKey, VoteColumns, VoteKey,
};
use crate::storage::tables::Tables;
use crate::types::{
    all_or_first, law_all_or_first, Bytes, Fault, Modeled, Text, VoteRecord,
};

verus! {

/// Storing a vote again, at any time, changes nothing.
pub proof fn law_store_vote_is_idempotent(
    tables: Tables,
    round_id: Text,
    wallet_id: Text,
    bundle_index: u32,
    proposal_id: u32,
    choice: u32,
    commitment: Bytes,
    now: i64,
    later: i64,
)
    requires
        store_vote_outcome(
            tables,
            round_id,
            wallet_id,
            bundle_index,
            proposal_id,
            choice,
            commitment,
            now,
        ) is Ok,
    ensures
        ({
            let next = store_vote_outcome(
                tables,
                round_id,
                wallet_id,
                bundle_index,
                proposal_id,
                choice,
                commitment,
                now,
            )->Ok_0;
            store_vote_outcome(
                next,
                round_id,
                wallet_id,
                bundle_index,
                proposal_id,
                choice,
                commitment,
                later,
            ) == Ok::<Tables, Fault>(next)
        }),
{
}

/// A vote that was stored is listed as it was stored.
pub proof fn law_vote_read_back(
    tables: Tables,
    round_id: Text,
    wallet_id: Text,
    bundle_index: u32,
    proposal_id: u32,
    choice: u32,
    commitment: Bytes,
    now: i64,
)
    requires
        store_vote_outcome(
            tables,
            round_id,
            wallet_id,
            bundle_index,
            proposal_id,
            choice,
            commitment,
            now,
        ) is Ok,
    ensures
        ({
            let key = vote_key(round_id, wallet_id, bundle_index as int, proposal_id as int);
            let next = store_vote_outcome(
                tables,
                round_id,
                wallet_id,
                bundle_index,
                proposal_id,
                choice,
                commitment,
                now,
            )->Ok_0;
            &&& next.votes.contains_key(key)
            &&& vote_record(key, next.votes[key]) == VoteRecord {
                proposal_id,
                bundle_index,
                choice,
            }
        }),
{
}

/// A submitted vote is replaced by no other one: storing it again is accepted
/// and changes nothing, storing another choice or commitment is refused.
pub proof fn law_submitted_vote_is_final(
    tables: Tables,
    round_id: Text,
    wallet_id: Text,
    bundle_index: u32,
    proposal_id: u32,
    choice: u32,
    commitment: Bytes,
    now: i64,
)
    requires
        tables.votes.contains_key(
            vote_key(round_id, wallet_id, bundle_index as int, proposal_id as int),
        ),
        tables.votes[vote_key(
            round_id,
            wallet_id,
            bundle_index as int,
            proposal_id as int,
        )].tx_hash is Some,
    ensures
        ({
            let vote = tables.votes[vote_key(
                round_id,
                wallet_id,
                bundle_index as int,
                proposal_id as int,
            )];
            let stored = store_vote_outcome(
                tables,
                round_id,
                wallet_id,
                bundle_index,
                proposal_id,
                choice,
                commitment,
                now,
            );
            if vote.choice == choice && vote.commitment == Some(commitment) {
                stored == Ok::<Tables, Fault>(tables)
            } else {
                stored matches Err(Fault::InvalidInput(_))
            }
        }),
{
}

/// A vote that replaces another one takes the shares of the vote away, and no
/// others.
pub proof fn law_replaced_vote_loses_shares(
    tables: Tables,
    round_id: Text,
    wallet_id: Text,
    bundle_index: u32,
    proposal_id: u32,
    choice: u32,
    commitment: Bytes,
    now: i64,
)
    requires
        ({
            let key = vote_key(round_id, wallet_id, bundle_index as int, proposal_id as int);
            &&& tables.votes.contains_key(key)
            &&& tables.votes[key].choice != choice || tables.votes[key].commitment != Some(
                commitment,
            )
        }),
        store_vote_outcome(
            tables,
            round_id,
            wallet_id,
            bundle_index,
            proposal_id,
            choice,
            commitment,
            now,
        ) is Ok,
    ensures
        ({
            let key = vote_key(round_id, wallet_id, bundle_index as int, proposal_id as int);
            let next = store_vote_outcome(
                tables,
                round_id,
                wallet_id,
                bundle_index,
                proposal_id,
                choice,
                commitment,
                now,
            )->Ok_0;
            forall|share: ShareKey| #[trigger]
                next.share_delegations.contains_key(share) <==> share.vote != key
                    && tables.share_delegations.contains_key(share)
        }),
{
}

/// A recorded submission is read back, recording it again changes nothing, and
/// another transaction is refused.
pub proof fn law_submission_is_final(
    tables: Tables,
    round_id: Text,
    wallet_id: Text,
    bundle_index: u32,
    proposal_id: u32,
    tx_hash: Text,
    other: Text,
)
    requires
        other != tx_hash,
        record_submission_outcome(
            tables,
            round_id,
            wallet_id,
            bundle_index,
            proposal_id,
            tx_hash,
        ) is Ok,
    ensures
        ({
            let next = record_submission_outcome(
                tables,
                round_id,
                wallet_id,
                bundle_index,
                proposal_id,
                tx_hash,
            )->Ok_0;
            let key = vote_key(round_id, wallet_id, bundle_index as int, proposal_id as int);
            &&& vote_tx_hash_outcome(next, key) == Ok::<Option<Text>, Fault>(Some(tx_hash))
            &&& record_submission_outcome(
                next,
                round_id,
                wallet_id,
                bundle_index,
                proposal_id,
                tx_hash,
            ) == Ok::<Tables, Fault>(next)
            &&& record_submission_outcome(
                next,
                round_id,
                wallet_id,
                bundle_index,
                proposal_id,
                other,
            ) matches Err(Fault::InvalidInput(_))
        }),
{
    let next = record_submission_outcome(
        tables,
        round_id,
        wallet_id,
        bundle_index,
        proposal_id,
        tx_hash,
    )->Ok_0;
    let again = record_submission_outcome(
        next,
        round_id,
        wallet_id,
        bundle_index,
        proposal_id,
        tx_hash,
    )->Ok_0;
    assert(again.votes =~= next.votes);
}

/// Each submitted vote takes the authority for its proposal away, and for no
/// other one.
pub proof fn law_submission_spends_authority(
    tables: Tables,
    round_id: Text,
    wallet_id: Text,
    bundle_index: u32,
    proposal_id: u32,
    tx_hash: Text,
)
    requires
        record_submission_outcome(
            tables,
            round_id,
            wallet_id,
            bundle_index,
            proposal_id,
            tx_hash,
        ) is Ok,
    ensures
        ({
            let bundle = bundle_key(round_id, wallet_id, bundle_index as int);
            let next = record_submission_outcome(
                tables,
                round_id,
                wallet_id,
                bundle_index,
                proposal_id,
                tx_hash,
            )->Ok_0;
            authority_of(next, bundle) == authority_of(tables, bundle).remove(proposal_id as u64)
        }),
{
    let bundle = bundle_key(round_id, wallet_id, bundle_index as int);
    let next = record_submission_outcome(
        tables,
        round_id,
        wallet_id,
        bundle_index,
        proposal_id,
        tx_hash,
    )->Ok_0;
    assert forall|bit: u64|
        authority_of(next, bundle).contains(bit) == authority_of(tables, bundle).remove(
            proposal_id as u64,
        ).contains(bit) by {
        if bit < 16 {
            let key = VoteKey { bundle, proposal_id: bit as i64 };
            if bit == proposal_id {
                assert(next.votes.contains_key(key));
            } else {
                assert(next.votes.contains_key(key) == tables.votes.contains_key(key));
            }
        }
    }
    assert(authority_of(next, bundle) =~= authority_of(tables, bundle).remove(proposal_id as u64));
}

/// What the proof of the next vote is given of a bundle is its authority for
/// those proposals below 16 that the bundle has no submitted vote on, whatever
/// else is stored of the bundle.
pub proof fn law_loaded_authority(
    tables: Tables,
    round_id: Text,
    wallet_id: Text,
    bundle_index: u32,
    i: u64,
)
    requires
        zkp2_outcome(tables, round_id, wallet_id, bundle_index) is Ok,
    ensures
        ({
            let vote = VoteKey {
                bundle: BundleKey {
                    round: RoundKey { round_id, wallet_id },
                    bundle_index: bundle_index as i64,
                },
                proposal_id: i as i64,
            };
            zkp2_outcome(
                tables,
                round_id,
                wallet_id,
                bundle_index,
            )->Ok_0.proposal_authority.contains(i) <==> i < 16 && !(tables.votes.contains_key(vote)
                && tables.votes[vote].tx_hash is Some)
        }),
{
}

/// The loaded authority stands for the bits of the number that is handed out.
pub proof fn law_authority_is_its_bits(data: Zkp2DelegationData, i: u64)
    ensures
        data.model().proposal_authority.contains(i) <==> i < 64 && data.proposal_authority & (1u64
            << i) != 0,
{
}

/// Once the submission of a vote is recorded, what is loaded for the next vote
/// is what was loaded before, without the authority for the proposal.
pub proof fn law_submission_spends_loaded_authority(
    tables: Tables,
    round_id: Text,
    wallet_id: Text,
    bundle_index: u32,
    proposal_id: u32,
    tx_hash: Text,
)
    requires
        zkp2_outcome(tables, round_id, wallet_id, bundle_index) is Ok,
        record_submission_outcome(
            tables,
            round_id,
            wallet_id,
            bundle_index,
            proposal_id,
            tx_hash,
        ) is Ok,
    ensures
        ({
            let before = zkp2_outcome(tables, round_id, wallet_id, bundle_index)->Ok_0;
            let next = record_submission_outcome(
                tables,
                round_id,
                wallet_id,
                bundle_index,
                proposal_id,
                tx_hash,
            )->Ok_0;
            zkp2_outcome(next, round_id, wallet_id, bundle_index) == Ok::<Zkp2Model, Fault>(
                Zkp2Model {
                    proposal_authority: before.proposal_authority.remove(proposal_id as u64),
                    ..before
                },
            )
        }),
{
    law_submission_spends_authority(
        tables,
        round_id,
        wallet_id,
        bundle_index,
        proposal_id,
        tx_hash,
    );
}

/// Recording a submission for one bundle takes no authority from another, and
/// storing a vote takes none at all.
pub proof fn law_authority_is_spent_by_submission_only(
    tables: Tables,
    round_id: Text,
    wallet_id: Text,
    bundle_index: u32,
    proposal_id: u32,
    choice: u32,
    commitment: Bytes,
    now: i64,
    tx_hash: Text,
    other_index: u32,
)
    ensures
        store_vote_outcome(
            tables,
            round_id,
            wallet_id,
            bundle_index,
            proposal_id,
            choice,
            commitment,
            now,
        ) matches Ok(next) ==> zkp2_outcome(next, round_id, wallet_id, other_index)
            == zkp2_outcome(tables, round_id, wallet_id, other_index),
        record_submission_outcome(
            tables,
            round_id,
            wallet_id,
            bundle_index,
            proposal_id,
            tx_hash,
        ) matches Ok(next) ==> other_index != bundle_index ==> zkp2_outcome(
            next,
            round_id,
            wallet_id,
            other_index,
        ) == zkp2_outcome(tables, round_id, wallet_id, other_index),
{
    let other = bundle_key(round_id, wallet_id, other_index as int);
    if let Ok(next) = store_vote_outcome(
        tables,
        round_id,
        wallet_id,
        bundle_index,
        proposal_id,
        choice,
        commitment,
        now,
    ) {
        assert forall|i: u64| authority_of(next, other).contains(i) == authority_of(
            tables,
            other,
        ).contains(i) by {
            assert(has_submitted(next, other, i as int) == has_submitted(tables, other, i as int));
        }
        assert(authority_of(next, other) =~= authority_of(tables, other));
    }
    if let Ok(next) = record_submission_outcome(
        tables,
        round_id,
        wallet_id,
        bundle_index,
        proposal_id,
        tx_hash,
    ) {
        if other_index != bundle_index {
            assert forall|i: u64| authority_of(next, other).contains(i) == authority_of(
                tables,
                other,
            ).contains(i) by {
                assert(has_submitted(next, other, i as int) == has_submitted(
                    tables,
                    other,
                    i as int,
                ));
            }
            assert(authority_of(next, other) =~= authority_of(tables, other));
        }
    }
}

/// A submission is recorded exactly for a stored vote that the voter has not
/// decided against: nothing was decided for the proposal, or it is not skipped
/// and the decided choice is the choice of the vote; and the vote has no other
/// transaction.
pub proof fn law_submission_follows_intent(
    tables: Tables,
    round_id: Text,
    wallet_id: Text,
    bundle_index: u32,
    proposal_id: u32,
    tx_hash: Text,
)
    ensures
        ({
            let round = RoundKey { round_id, wallet_id };
            let decided = IntentKey { round, proposal_id: proposal_id as i64 };
            let key = VoteKey {
                bundle: BundleKey { round, bundle_index: bundle_index as i64 },
                proposal_id: proposal_id as i64,
            };
            let vote = tables.votes[key];
            let intent = tables.ballot_intents[decided];
            let recorded = record_submission_outcome(
                tables,
                round_id,
                wallet_id,
                bundle_index,
                proposal_id,
                tx_hash,
            );
            &&& recorded is Ok <==> {
                &&& tables.votes.contains_key(key)
                &&& tables.ballot_intents.contains_key(decided) ==> intent.skipped == 0
                    && intent.choice == Some(vote.choice)
                &&& vote.tx_hash is Some ==> vote.tx_hash == Some(tx_hash)
            }
            &&& recorded is Err ==> (recorded matches Err(Fault::InvalidInput(_)))
            &&& recorded matches Ok(next) ==> {
                &&& next == (Tables { votes: next.votes, ..tables })
                &&& next.votes.remove(key) == tables.votes.remove(key)
                &&& next.votes.contains_key(key)
                &&& next.votes[key] == (VoteColumns { tx_hash: Some(tx_hash), ..vote })
            }
        }),
{
    let key = vote_key(round_id, wallet_id, bundle_index as int, proposal_id as int);
    if let Ok(next) = record_submission_outcome(
        tables,
        round_id,
        wallet_id,
        bundle_index,
        proposal_id,
        tx_hash,
    ) {
        assert(next.votes.remove(key) =~= tables.votes.remove(key));
    }
}

/// The list for vote tree sync holds a confirmed bundle with its position, and
/// with its VAN commitment exactly as long as no vote of the bundle has been
/// submitted. A commitment that is then missing or no field element is an
/// error, as are numbers out of range.
pub proof fn law_expected_van_by_columns(tables: Tables, key: BundleKey)
    requires
        tables.bundles[key].van_leaf_position is Some,
    ensures
        ({
            let bundle = tables.bundles[key];
            let position = bundle.van_leaf_position->Some_0;
            let in_range = 0 <= key.bundle_index <= u32::MAX && 0 <= position <= u32::MAX;
            let submitted = exists|vote: VoteKey| #[trigger]
                tables.votes.contains_key(vote) && vote.bundle == key
                    && tables.votes[vote].tx_hash is Some;
            let readable = bundle.gov_comm matches Some(bytes) && bytes.len() == 32 && le_value(
                bytes,
            ) < pallas_modulus();
            let entry = van_tree_entry(tables, key);
            &&& entry is Ok <==> in_range && (submitted || readable)
            &&& entry is Err ==> (entry matches Err(Fault::Internal(_)))
            &&& entry matches Ok(listed) ==> {
                &&& listed.bundle_index == key.bundle_index
                &&& listed.position == position
                &&& listed.expected_delegation_van == if submitted {
                    None
                } else {
                    bundle.gov_comm
                }
            }
        }),
{
}

/// The list for vote tree sync is of the bundles of the round that have a VAN
/// leaf position, each one once and by index; it names each of them, or it
/// fails where one of them cannot be named.
pub proof fn law_van_tree_entries_listed(
    tables: Tables,
    round: RoundKey,
    keys: Seq<BundleKey>,
)
    requires
        lists_confirmed(keys, tables, round),
    ensures
        forall|key: BundleKey| #[trigger]
            keys.contains(key) <==> tables.bundles.contains_key(key) && key.round == round
                && tables.bundles[key].van_leaf_position is Some,
        forall|i: int, j: int|
            0 <= i < j < keys.len() ==> (#[trigger] keys[i]).bundle_index < (
            #[trigger] keys[j]).bundle_index,
        all_or_first(van_tree_entries(keys, tables)) matches Ok(entries) ==> entries.len()
            == keys.len() && forall|i: int|
            0 <= i < keys.len() ==> van_tree_entry(tables, #[trigger] keys[i]) == Ok::<
                VanTreeModel,
                Fault,
            >(entries[i]),
        all_or_first(van_tree_entries(keys, tables)) is Err <==> exists|key: BundleKey| #[trigger]
            keys.contains(key) && van_tree_entry(tables, key) is Err,
{
    let items = van_tree_entries(keys, tables);
    law_all_or_first(items);
    assert forall|key: BundleKey| #[trigger]
        keys.contains(key) <==> tables.bundles.contains_key(key) && key.round == round
            && tables.bundles[key].van_leaf_position is Some by {
        assert(keys.to_set().contains(key) == keys.contains(key));
    }
    assert forall|i: int, j: int| 0 <= i < j < keys.len() implies (#[trigger] keys[i]).bundle_index
        < (#[trigger] keys[j]).bundle_index by {
        assert(keys.contains(keys[i]) && keys.contains(keys[j]));
        assert(keys[i] != keys[j]);
    }
    if let Ok(entries) = all_or_first(items) {
        assert forall|i: int| 0 <= i < keys.len() implies van_tree_entry(tables, #[trigger] keys[i])
            == Ok::<VanTreeModel, Fault>(entries[i]) by {
            assert(items[i] == van_tree_entry(tables, keys[i]));
        }
        assert forall|key: BundleKey| #[trigger] keys.contains(key) implies van_tree_entry(
            tables,
            key,
        ) is Ok by {
            let i = choose|i: int| 0 <= i < keys.len() && keys[i] == key;
            assert(van_tree_entry(tables, keys[i]) is Ok);
        }
    } else {
        let i = choose|i: int| 0 <= i < items.len() && (#[trigger] items[i]) is Err;
        assert(keys.contains(keys[i]));
        assert(van_tree_entry(tables, keys[i]) is Err);
    }
}

/// Storing a vote leaves the list for vote tree sync as it is.
pub proof fn law_stored_vote_keeps_expected_van(
    tables: Tables,
    round_id: Text,
    wallet_id: Text,
    bundle_index: u32,
    proposal_id: u32,
    choice: u32,
    commitment: Bytes,
    now: i64,
    round: RoundKey,
    keys: Seq<BundleKey>,
)
    requires
        store_vote_outcome(
            tables,
            round_id,
            wallet_id,
            bundle_index,
            proposal_id,
            choice,
            commitment,
            now,
        ) is Ok,
    ensures
        ({
            let next = store_vote_outcome(
                tables,
                round_id,
                wallet_id,
                bundle_index,
                proposal_id,
                choice,
                commitment,
                now,
            )->Ok_0;
            &&& lists_confirmed(keys, next, round) == lists_confirmed(keys, tables, round)
            &&& van_tree_entries(keys, next) == van_tree_entries(keys, tables)
        }),
{
    let next = store_vote_outcome(
        tables,
        round_id,
        wallet_id,
        bundle_index,
        proposal_id,
        choice,
        commitment,
        now,
    )->Ok_0;
    assert(next.bundles == tables.bundles);
    assert forall|key: BundleKey| #[trigger] has_submitted_any(next, key) == has_submitted_any(
        tables,
        key,
    ) by {
        if has_submitted_any(next, key) {
            let vote = choose|vote: VoteKey| #[trigger]
                next.votes.contains_key(vote) && vote.bundle == key
                    && next.votes[vote].tx_hash is Some;
            assert(tables.votes.contains_key(vote));
        }
        if has_submitted_any(tables, key) {
            let vote = choose|vote: VoteKey| #[trigger]
                tables.votes.contains_key(vote) && vote.bundle == key
                    && tables.votes[vote].tx_hash is Some;
            assert(next.votes.contains_key(vote));
        }
    }
    assert(van_tree_entries(keys, next) =~= van_tree_entries(keys, tables));
}

/// Recording the submission of a vote leaves no VAN to expect for its bundle,
/// and leaves what is listed of the other bundles as it is.
pub proof fn law_submission_drops_expected_van(
    tables: Tables,
    round_id: Text,
    wallet_id: Text,
    bundle_index: u32,
    proposal_id: u32,
    tx_hash: Text,
    other: BundleKey,
)
    requires
        record_submission_outcome(
            tables,
            round_id,
            wallet_id,
            bundle_index,
            proposal_id,
            tx_hash,
        ) is Ok,
    ensures
        ({
            let next = record_submission_outcome(
                tables,
                round_id,
                wallet_id,
                bundle_index,
                proposal_id,
                tx_hash,
            )->Ok_0;
            let key = BundleKey {
                round: RoundKey { round_id, wallet_id },
                bundle_index: bundle_index as i64,
            };
            &&& van_tree_entry(next, key) matches Ok(listed) ==> listed.expected_delegation_van
                is None
            &&& van_tree_entry(tables, key) is Ok ==> van_tree_entry(next, key) is Ok
            &&& other != key ==> van_tree_entry(next, other) == van_tree_entry(tables, other)
        }),
{
    let next = record_submission_outcome(
        tables,
        round_id,
        wallet_id,
        bundle_index,
        proposal_id,
        tx_hash,
    )->Ok_0;
    let vote = vote_key(round_id, wallet_id, bundle_index as int, proposal_id as int);
    assert(next.votes.contains_key(vote) && next.votes[vote].tx_hash is Some);
    assert(has_submitted_any(next, vote.bundle));
    if other != vote.bundle {
        if has_submitted_any(next, other) {
            let cast = choose|cast: VoteKey| #[trigger]
                next.votes.contains_key(cast) && cast.bundle == other
                    && next.votes[cast].tx_hash is Some;
            assert(tables.votes.contains_key(cast));
        }
        if has_submitted_any(tables, other) {
            let cast = choose|cast: VoteKey| #[trigger]
                tables.votes.contains_key(cast) && cast.bundle == other
                    && tables.votes[cast].tx_hash is Some;
            assert(next.votes.contains_key(cast));
        }
    }
}

/// A bundle that has submitted no vote has the authority for all proposals,
/// and as proposals are counted from 1, the authority for 0 is never spent.
pub proof fn law_authority_of_proposals(tables: Tables, bundle: BundleKey)
    requires
        forall|key: VoteKey| #[trigger]
            tables.votes.contains_key(key) && key.bundle == bundle ==> key.proposal_id >= 1,
    ensures
        authority_of(tables, bundle).contains(0),
        (forall|key: VoteKey| #[trigger]
            tables.votes.contains_key(key) && key.bundle == bundle
                ==> tables.votes[key].tx_hash is None) ==> forall|bit: u64|
            bit < 16 ==> #[trigger] authority_of(tables, bundle).contains(bit),
{
    let zero = VoteKey { bundle, proposal_id: 0 };
    assert(!has_submitted(tables, bundle, 0)) by {
        if tables.votes.contains_key(zero) {
        }
    }
}

/// A decision of the voter is accepted exactly when each submitted vote on the
/// proposal agrees with it. A decision without a choice that is no skip agrees
/// with every vote.
pub proof fn law_intent_agrees_with_submissions(
    tables: Tables,
    round_id: Text,
    wallet_id: Text,
    proposal_id: u32,
    skipped: bool,
    choice: Option<u32>,
)
    ensures
        intent_conflict_outcome(
            tables,
            round_id,
            wallet_id,
            proposal_id,
            skipped,
            choice,
        ) is Ok <==> forall|key: VoteKey| #[trigger]
            tables.votes.contains_key(key) && key.bundle.round == round_key(round_id, wallet_id)
                && key.proposal_id == proposal_id && tables.votes[key].tx_hash is Some
                ==> !skipped && (choice is Some ==> tables.votes[key].choice == choice->Some_0),
{
    let round = round_key(round_id, wallet_id);
    let bundles = conflicting_bundles(tables, round, proposal_id, skipped, choice);
    if bundles == Set::<i64>::empty() {
        assert forall|key: VoteKey| #[trigger]
            tables.votes.contains_key(key) && key.bundle.round == round && key.proposal_id
                == proposal_id && tables.votes[key].tx_hash is Some implies !skipped && (
        choice is Some ==> tables.votes[key].choice == choice->Some_0) by {
            assert(!bundles.contains(key.bundle.bundle_index));
            assert(key == VoteKey {
                bundle: BundleKey { round, bundle_index: key.bundle.bundle_index },
                proposal_id: proposal_id as i64,
            });
        }
    } else {
        assert(exists|index: i64| bundles.contains(index)) by {
            if forall|index: i64| !bundles.contains(index) {
                assert(bundles =~= Set::<i64>::empty());
            }
        }
        let index = choose|index: i64| bundles.contains(index);
        let key = VoteKey {
            bundle: BundleKey { round, bundle_index: index },
            proposal_id: proposal_id as i64,
        };
        assert(tables.votes.contains_key(key));
    }
}

/// Clearing the shares of a skipped proposal leaves none of them and all the
/// others as they were, and says how many are gone: none when it is done again.
/// Without a skip, nothing changes, whether there is a choice or not.
pub proof fn law_stale_shares_are_cleared(
    tables: Tables,
    round_id: Text,
    wallet_id: Text,
    proposal_id: u32,
    skipped: bool,
    choice: Option<u32>,
)
    ensures
        ({
            let shares = proposal_shares(tables, round_key(round_id, wallet_id), proposal_id);
            let outcome = clear_stale_outcome(
                tables,
                round_id,
                wallet_id,
                proposal_id,
                skipped,
                choice,
            );
            &&& skipped ==> {
                let next = outcome->Ok_0.0;
                &&& outcome is Ok
                &&& outcome->Ok_0.1 == shares.len() as u64
                &&& forall|key: ShareKey| #[trigger]
                    next.share_delegations.contains_key(key)
                        <==> tables.share_delegations.contains_key(key) && !shares.contains(key)
                &&& forall|key: ShareKey| #[trigger]
                    next.share_delegations.contains_key(key) ==> next.share_delegations[key]
                        == tables.share_delegations[key]
                &&& next == (Tables { share_delegations: next.share_delegations, ..tables })
                &&& clear_stale_outcome(next, round_id, wallet_id, proposal_id, true, choice) == Ok::<
                    (Tables, u64),
                    Fault,
                >((next, 0))
            }
            &&& !skipped ==> (outcome is Ok <==> choice is None)
            &&& !skipped && outcome is Ok ==> outcome->Ok_0 == (tables, 0u64)
        }),
{
    if skipped {
        let round = round_key(round_id, wallet_id);
        let next = clear_stale_outcome(
            tables,
            round_id,
            wallet_id,
            proposal_id,
            true,
            choice,
        )->Ok_0.0;
        let left = proposal_shares(next, round, proposal_id);
        assert(left =~= Set::<ShareKey>::empty());
        assert(next.share_delegations.remove_keys(left) =~= next.share_delegations);
    }
}

} // verus!
