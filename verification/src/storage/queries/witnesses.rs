//! Cached Merkle inclusion proofs of the notes of a bundle.

use vstd::prelude::*;
use vstd::relations::{sorted_by, total_ordering};

use crate::bytes::{copy_bytes, entries_of, join_bytes, joined, split_entries};
use crate::storage::faults::{no_parent, no_parent_text};
use crate::storage::rows::{bundle_key, BundleKey, OfBundle, WitnessColumns, WitnessKey, WitnessRow};
use crate::storage::table::{accepted, keys_of, Order, Row};
use crate::storage::tables::{ran, Tables, VotingTables};
use crate::text::{decimal, decimal_list};
use crate::types::{
    all_or_first, answers, lemma_next_item, witnesses_of, Fault, Message, Modeled, Text,
    VotingError, WitnessData, WitnessModel,
};
use super::bundles::{load_bundle_note_positions, note_positions_outcome, u64s_eq};

verus! {

/// The witnesses of a bundle.
pub open spec fn witness_keys(tables: Tables, bundle: BundleKey) -> Set<WitnessKey> {
    tables.witnesses.dom().filter(|key: WitnessKey| key.bundle == bundle)
}

/// Says whether witnesses are cached for a bundle.
pub fn has_witnesses(
    tables: &VotingTables,
    round_id: &str,
    wallet_id: &str,
    bundle_index: u32,
) -> (r: Result<bool, VotingError>)
    ensures
        r == Ok::<bool, VotingError>(
            exists|key: WitnessKey| #[trigger]
                tables@.witnesses.contains_key(key) && key.bundle == bundle_key(
                    round_id@,
                    wallet_id@,
                    bundle_index as int,
                ),
        ),
{
    let found = tables.witnesses.find(
        &OfBundle { round_id, wallet_id, bundle_index: bundle_index as i64 },
    );
    proof {
        if let Some(row) = found {
            assert(tables@.witnesses.contains_key(row.key()));
        }
    }
    Ok(found.is_some())
}

/// Counts the witnesses that are cached for a bundle.
pub fn witness_count(
    tables: &VotingTables,
    round_id: &str,
    wallet_id: &str,
    bundle_index: u32,
) -> (r: Result<usize, VotingError>)
    ensures
        witness_keys(
            tables@,
            bundle_key(round_id@, wallet_id@, bundle_index as int),
        ).finite(),
        r matches Ok(n) && n == witness_keys(
            tables@,
            bundle_key(round_id@, wallet_id@, bundle_index as int),
        ).len(),
{
    let filter = OfBundle { round_id, wallet_id, bundle_index: bundle_index as i64 };
    let n: usize = tables.witnesses.count(&filter);
    proof {
        assert(witness_keys(tables@, bundle_key(round_id@, wallet_id@, bundle_index as int))
            =~= accepted::<WitnessRow, OfBundle>(tables@.witnesses, filter));
    }
    Ok(n)
}

/// The key of a witness of a bundle.
pub open spec fn witness_key(bundle: BundleKey, witness: WitnessModel) -> WitnessKey {
    WitnessKey { bundle, note_position: witness.position as i64 }
}

/// What is stored of a witness.
pub open spec fn witness_columns(witness: WitnessModel, now: i64) -> WitnessColumns {
    WitnessColumns {
        note_commitment: witness.note_commitment,
        root: witness.root,
        auth_path: joined(witness.auth_path),
        created_at: now,
    }
}

/// Witnesses of a bundle are stored one after the other; one with the position
/// of another takes its place.
pub open spec fn with_witnesses(
    stored: Map<WitnessKey, WitnessColumns>,
    bundle: BundleKey,
    witnesses: Seq<WitnessModel>,
    now: i64,
) -> Map<WitnessKey, WitnessColumns>
    decreases witnesses.len(),
{
    if witnesses.len() == 0 {
        stored
    } else {
        with_witnesses(stored, bundle, witnesses.drop_last(), now).insert(
            witness_key(bundle, witnesses.last()),
            witness_columns(witnesses.last(), now),
        )
    }
}

/// Witnesses are stored for a bundle that exists.
pub open spec fn store_witnesses_outcome(
    tables: Tables,
    round_id: Text,
    wallet_id: Text,
    bundle_index: u32,
    witnesses: Seq<WitnessModel>,
    now: i64,
) -> Result<Tables, Fault> {
    let bundle = bundle_key(round_id, wallet_id, bundle_index as int);
    if witnesses.len() > 0 && !tables.bundles.contains_key(bundle) {
        Err(
            Fault::Internal(
                "failed to store witness for position "@ + decimal(witnesses[0].position as int)
                    + ": "@ + no_parent(),
            ),
        )
    } else {
        Ok(
            Tables {
                witnesses: with_witnesses(tables.witnesses, bundle, witnesses, now),
                ..tables
            },
        )
    }
}

/// Caches witnesses of notes of a bundle at `now`.
pub fn store_witnesses(
    tables: &mut VotingTables,
    round_id: &str,
    wallet_id: &str,
    bundle_index: u32,
    witnesses: &[WitnessData],
    now: i64,
) -> (r: Result<(), VotingError>)
    ensures
        ran(
            r,
            store_witnesses_outcome(
                old(tables)@,
                round_id@,
                wallet_id@,
                bundle_index,
                witnesses_of(witnesses@),
                now,
            ),
            old(tables)@,
            final(tables)@,
        ),
{
    if witnesses.len() > 0 && tables.bundle(round_id, wallet_id, bundle_index).is_none() {
        return Err(
            Message::new("failed to store witness for position ").number(
                witnesses[0].position as i128,
            ).text(": ").text(no_parent_text()).internal(),
        );
    }
    let ghost before = tables@;
    let ghost bundle = bundle_key(round_id@, wallet_id@, bundle_index as int);
    let ghost models = witnesses_of(witnesses@);
    let mut i: usize = 0;
    while i < witnesses.len()
        invariant
            i <= witnesses@.len(),
            bundle == bundle_key(round_id@, wallet_id@, bundle_index as int),
            models == witnesses_of(witnesses@),
            tables@ == (Tables {
                witnesses: with_witnesses(before.witnesses, bundle, models.take(i as int), now),
                ..before
            }),
        decreases witnesses.len() - i,
    {
        let witness = &witnesses[i];
        let row = WitnessRow {
            round_id: round_id.to_owned(),
            wallet_id: wallet_id.to_owned(),
            bundle_index: bundle_index as i64,
            note_position: witness.position as i64,
            note_commitment: copy_bytes(witness.note_commitment.as_slice()),
            root: copy_bytes(witness.root.as_slice()),
            auth_path: join_bytes(witness.auth_path.as_slice()),
            created_at: now,
        };
        tables.witnesses.put(row);
        proof {
            assert(models.take(i + 1).drop_last() =~= models.take(i as int));
            assert(models.take(i + 1).last() == witness.model());
        }
        i += 1;
    }
    assert(models.take(i as int) =~= models);
    Ok(())
}

/// Numbers in ascending order.
pub open spec fn ascending(values: Seq<u64>) -> Seq<u64> {
    values.sort_by(|a: u64, b: u64| a <= b)
}

proof fn lemma_ascending_unique(values: Seq<u64>, sorted: Seq<u64>)
    requires
        values.to_multiset() == sorted.to_multiset(),
        forall|i: int, j: int| 0 <= i < j < sorted.len() ==> sorted[i] <= sorted[j],
    ensures
        sorted == ascending(values),
{
    let le = |a: u64, b: u64| a <= b;
    assert(total_ordering(le));
    values.lemma_sort_by_ensures(le);
    assert(sorted_by(sorted, le));
    vstd::seq_lib::lemma_sorted_unique(sorted, ascending(values), le);
}

fn sort_ascending(values: Vec<u64>) -> (sorted: Vec<u64>)
    ensures
        sorted@ == ascending(values@),
{
    let mut sorted: Vec<u64> = Vec::new();
    let mut i: usize = 0;
    assert(values@.take(0) =~= sorted@);
    while i < values.len()
        invariant
            i <= values@.len(),
            values@.take(i as int).to_multiset() == sorted@.to_multiset(),
            forall|a: int, b: int| 0 <= a < b < sorted@.len() ==> sorted@[a] <= sorted@[b],
        decreases values.len() - i,
    {
        let value: u64 = values[i];
        let mut at: usize = sorted.len();
        while at > 0 && sorted[at - 1] > value
            invariant
                at <= sorted@.len(),
                forall|a: int| at <= a < sorted@.len() ==> value < sorted@[a],
            decreases at,
        {
            at -= 1;
        }
        let ghost before = sorted@;
        sorted.insert(at, value);
        proof {
            assert(values@.take(i + 1) =~= values@.take(i as int).push(value));
            vstd::seq_lib::to_multiset_insert(before, at as int, value);
            vstd::seq_lib::to_multiset_build(values@.take(i as int), value);
            assert forall|a: int, b: int| 0 <= a < b < sorted@.len() implies sorted@[a]
                <= sorted@[b] by {
                let old_a = if a < at {
                    a
                } else {
                    a - 1
                };
                let old_b = if b < at {
                    b
                } else {
                    b - 1
                };
                if a != at && b != at {
                    assert(before[old_a] <= before[old_b]);
                } else if b == at && a < at - 1 {
                    assert(before[a] <= before[at - 1]);
                }
            }
        }
        i += 1;
    }
    proof {
        assert(values@.take(i as int) =~= values@);
        lemma_ascending_unique(values@, sorted@);
    }
    sorted
}

/// The positions of witnesses.
pub open spec fn witness_positions(witnesses: Seq<WitnessModel>) -> Seq<u64> {
    witnesses.map_values(|witness: WitnessModel| witness.position)
}

/// The witnesses of a bundle must be those of its notes, in any order.
pub open spec fn positions_match_outcome(
    tables: Tables,
    round_id: Text,
    wallet_id: Text,
    bundle_index: u32,
    witnesses: Seq<WitnessModel>,
) -> Result<(), Fault> {
    match note_positions_outcome(tables, round_id, wallet_id, bundle_index) {
        Err(fault) => Err(fault),
        Ok(positions) => {
            let expected = ascending(positions);
            let actual = ascending(witness_positions(witnesses));
            if expected != actual {
                Err(
                    Fault::InvalidInput(
                        "witness positions do not match bundle note positions for round="@
                            + round_id + ", bundle="@ + decimal(bundle_index as int)
                            + ": expected "@ + decimal_list(expected) + ", got "@ + decimal_list(
                            actual,
                        ),
                    ),
                )
            } else {
                Ok(())
            }
        },
    }
}

fn require_witness_positions_match_bundle(
    tables: &VotingTables,
    round_id: &str,
    wallet_id: &str,
    bundle_index: u32,
    witnesses: &[WitnessData],
) -> (r: Result<(), VotingError>)
    ensures
        answers(
            r,
            positions_match_outcome(
                tables@,
                round_id@,
                wallet_id@,
                bundle_index,
                witnesses_of(witnesses@),
            ),
        ),
{
    let positions = match load_bundle_note_positions(tables, round_id, wallet_id, bundle_index) {
        Ok(positions) => positions,
        Err(error) => return Err(error),
    };
    let ghost requested = witness_positions(witnesses_of(witnesses@));
    let mut got: Vec<u64> = Vec::new();
    let mut i: usize = 0;
    while i < witnesses.len()
        invariant
            i <= witnesses@.len(),
            requested == witness_positions(witnesses_of(witnesses@)),
            got@ == requested.take(i as int),
        decreases witnesses.len() - i,
    {
        got.push(witnesses[i].position);
        assert(got@ =~= requested.take(i + 1));
        i += 1;
    }
    assert(got@ =~= requested);
    let expected = sort_ascending(positions);
    let actual = sort_ascending(got);
    if !u64s_eq(expected.as_slice(), actual.as_slice()) {
        return Err(
            Message::new("witness positions do not match bundle note positions for round=").text(
                round_id,
            ).text(", bundle=").number(bundle_index as i128).text(": expected ").numbers(
                expected.as_slice(),
            ).text(", got ").numbers(actual.as_slice()).invalid(),
        );
    }
    Ok(())
}

/// The witnesses of a bundle are replaced by those of all its notes.
pub open spec fn replace_witnesses_outcome(
    tables: Tables,
    round_id: Text,
    wallet_id: Text,
    bundle_index: u32,
    witnesses: Seq<WitnessModel>,
    now: i64,
) -> Result<Tables, Fault> {
    let bundle = bundle_key(round_id, wallet_id, bundle_index as int);
    match positions_match_outcome(tables, round_id, wallet_id, bundle_index, witnesses) {
        Err(fault) => Err(fault),
        Ok(_) => Ok(
            Tables {
                witnesses: with_witnesses(
                    tables.witnesses.remove_keys(witness_keys(tables, bundle)),
                    bundle,
                    witnesses,
                    now,
                ),
                ..tables
            },
        ),
    }
}

/// Replaces all cached witnesses of a bundle at `now`.
pub fn replace_bundle_witnesses(
    tables: &mut VotingTables,
    round_id: &str,
    wallet_id: &str,
    bundle_index: u32,
    witnesses: &[WitnessData],
    now: i64,
) -> (r: Result<(), VotingError>)
    ensures
        ran(
            r,
            replace_witnesses_outcome(
                old(tables)@,
                round_id@,
                wallet_id@,
                bundle_index,
                witnesses_of(witnesses@),
                now,
            ),
            old(tables)@,
            final(tables)@,
        ),
{
    if let Err(error) = require_witness_positions_match_bundle(
        tables,
        round_id,
        wallet_id,
        bundle_index,
        witnesses,
    ) {
        return Err(error);
    }
    tables.witnesses.remove_where(
        &OfBundle { round_id, wallet_id, bundle_index: bundle_index as i64 },
    );
    proof {
        let bundle = bundle_key(round_id@, wallet_id@, bundle_index as int);
        assert(tables@.witnesses =~= old(tables)@.witnesses.remove_keys(
            witness_keys(old(tables)@, bundle),
        ));
    }
    store_witnesses(tables, round_id, wallet_id, bundle_index, witnesses, now)
}

/// The witnesses of a bundle, each one once, by stored position.
pub open spec fn lists_witnesses(keys: Seq<WitnessKey>, tables: Tables, bundle: BundleKey) -> bool {
    &&& keys.no_duplicates()
    &&& keys.to_set() == witness_keys(tables, bundle)
    &&& forall|i: int, j: int|
        0 <= i < j < keys.len() ==> (#[trigger] keys[i]).note_position <= (
        #[trigger] keys[j]).note_position
}

/// A witness as it is stored.
pub open spec fn stored_witness(key: WitnessKey, witness: WitnessColumns) -> Result<
    WitnessModel,
    Fault,
> {
    if witness.auth_path.len() != 1024 {
        Err(
            Fault::Internal(
                "corrupt auth_path blob for position "@ + decimal(
                    (key.note_position as u64) as int,
                ) + ": expected 1024 bytes, got "@ + decimal(witness.auth_path.len() as int),
            ),
        )
    } else {
        Ok(
            WitnessModel {
                note_commitment: witness.note_commitment,
                position: key.note_position as u64,
                root: witness.root,
                auth_path: entries_of(witness.auth_path, 32),
            },
        )
    }
}

/// Witnesses as they are stored.
pub open spec fn stored_witnesses(keys: Seq<WitnessKey>, tables: Tables) -> Seq<
    Result<WitnessModel, Fault>,
> {
    keys.map_values(|key: WitnessKey| stored_witness(key, tables.witnesses[key]))
}

struct ByPosition;

impl Order<WitnessRow> for ByPosition {
    closed spec fn rank(&self, key: WitnessKey, data: WitnessColumns) -> (int, int, int) {
        (key.note_position as int, 0, 0)
    }

    fn rank_of(&self, row: &WitnessRow) -> (i64, i64, i64) {
        (row.note_position, 0, 0)
    }
}

fn read_witness(row: &WitnessRow) -> (r: Result<WitnessData, VotingError>)
    ensures
        answers(r, stored_witness(row.key(), row.data())),
{
    let position: u64 = row.note_position as u64;
    if row.auth_path.len() != 1024 {
        return Err(
            Message::new("corrupt auth_path blob for position ").number(position as i128).text(
                ": expected 1024 bytes, got ",
            ).number(row.auth_path.len() as i128).internal(),
        );
    }
    Ok(
        WitnessData {
            note_commitment: copy_bytes(row.note_commitment.as_slice()),
            position,
            root: copy_bytes(row.root.as_slice()),
            auth_path: split_entries(row.auth_path.as_slice(), 32),
        },
    )
}

/// Loads the cached witnesses of a bundle, by position.
pub fn load_witnesses(
    tables: &VotingTables,
    round_id: &str,
    wallet_id: &str,
    bundle_index: u32,
) -> (r: Result<Vec<WitnessData>, VotingError>)
    ensures
        exists|keys: Seq<WitnessKey>| #[trigger]
            lists_witnesses(
                keys,
                tables@,
                bundle_key(round_id@, wallet_id@, bundle_index as int),
            ) && answers(r, all_or_first(stored_witnesses(keys, tables@))),
{
    let rows = tables.witnesses.select(
        &OfBundle { round_id, wallet_id, bundle_index: bundle_index as i64 },
        &ByPosition,
    );
    let ghost bundle = bundle_key(round_id@, wallet_id@, bundle_index as int);
    let ghost keys = keys_of(rows@);
    let ghost items = stored_witnesses(keys, tables@);
    proof {
        assert(keys.to_set() =~= witness_keys(tables@, bundle));
        assert(lists_witnesses(keys, tables@, bundle));
        assert(items.take(0) =~= Seq::empty());
    }
    let mut witnesses: Vec<WitnessData> = Vec::new();
    assert(witnesses.model() =~= Seq::empty());
    let mut i: usize = 0;
    while i < rows.len()
        invariant
            i <= rows@.len(),
            keys == keys_of(rows@),
            items == stored_witnesses(keys, tables@),
            lists_witnesses(
                keys,
                tables@,
                bundle_key(round_id@, wallet_id@, bundle_index as int),
            ),
            forall|j: int|
                0 <= j < rows@.len() ==> tables@.witnesses[(#[trigger] rows@[j]).key()]
                    == rows@[j].data(),
            all_or_first(items.take(i as int)) == Ok::<Seq<WitnessModel>, Fault>(
                witnesses.model(),
            ),
        decreases rows.len() - i,
    {
        let witness = read_witness(rows[i]);
        proof {
            lemma_next_item(items, i as int, witnesses.model());
        }
        match witness {
            Ok(witness) => {
                let ghost before = witnesses.model();
                witnesses.push(witness);
                assert(witnesses.model() =~= before.push(witness.model()));
            },
            Err(error) => return Err(error),
        }
        i += 1;
    }
    assert(items.take(i as int) =~= items);
    Ok(witnesses)
}

} // verus!
