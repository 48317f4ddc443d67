//! Bundles: their notes, and what is known of their delegations on chain.

use vstd::prelude::*;

use crate::bytes::{bytes_eq, entries_of, joined, split_entries};
use crate::storage::faults::{
    bundle_missing, bundle_missing_error, bundle_unread, bundle_unread_error, key_taken,
    key_taken_text, no_parent, no_parent_text,
};

use crate::storage::notes::{
    decode_note_positions_blob, identities_of, note_identity_hash, note_identity_hashes_blob,
    note_positions, note_positions_blob, note_positions_blob_for_notes, positions_blob,
    positions_of, stored_positions,
};
use crate::storage::rows::{
    bundle_key, round_key, BundleColumns, BundleKey, BundleRow, FromBundle, ImtKey, OfBundle,
    OfRound, RoundKey, ShareKey, VoteKey, WitnessKey,
};
use crate::storage::table::{keys_of, Filter, Order, Row};
use crate::storage::tables::{ran, ran_with, Tables, VotingTables};
use crate::text::{decimal, decimal_list};
use crate::types::{
    answers, notes_of, Bytes, Fault, Message, Modeled, NoteInfo, NoteModel, Text, VotingError,
};

verus! {

/// The columns of a bundle of which nothing is known.
pub open spec fn blank_bundle() -> BundleColumns {
    BundleColumns {
        note_positions_blob: None,
        note_identity_hashes_blob: None,
        van_comm_rand: None,
        dummy_nullifiers: None,
        rho_signed: None,
        padded_note_data: None,
        nf_signed: None,
        cmx_new: None,
        alpha: None,
        rseed_signed: None,
        rseed_output: None,
        gov_comm: None,
        total_note_value: None,
        address_index: None,
        rk: None,
        gov_nullifiers_blob: None,
        padded_note_secrets: None,
        pczt_sighash: None,
        tx1_effects: None,
        van_leaf_position: None,
        delegation_tx_hash: None,
    }
}

/// The tables with a bundle stored.
pub open spec fn with_bundle(tables: Tables, key: BundleKey, bundle: BundleColumns) -> Tables {
    Tables { bundles: tables.bundles.insert(key, bundle), ..tables }
}

/// A new bundle is stored in a round that exists; a bundle cannot be stored twice.
pub open spec fn insert_bundle_outcome(
    tables: Tables,
    round_id: Text,
    wallet_id: Text,
    bundle_index: u32,
    bundle: BundleColumns,
) -> Result<Tables, Fault> {
    let key = bundle_key(round_id, wallet_id, bundle_index as int);
    if tables.bundles.contains_key(key) {
        Err(
            Fault::Internal(
                "failed to insert bundle: "@ + key_taken(
                    "voting_bundles.round_id, voting_bundles.wallet_id, voting_bundles.bundle_index"@,
                ),
            ),
        )
    } else if !tables.rounds.contains_key(key.round) {
        Err(Fault::Internal("failed to insert bundle: "@ + no_parent()))
    } else {
        Ok(with_bundle(tables, key, bundle))
    }
}

/// A new bundle with its note positions, and its note identities if they are known.
pub open spec fn new_bundle(positions: Bytes, identities: Option<Bytes>) -> BundleColumns {
    BundleColumns {
        note_positions_blob: Some(positions),
        note_identity_hashes_blob: identities,
        ..blank_bundle()
    }
}

fn insert_bundle_row(
    tables: &mut VotingTables,
    round_id: &str,
    wallet_id: &str,
    bundle_index: u32,
    positions: Vec<u8>,
    identities: Option<Vec<u8>>,
) -> (r: Result<(), VotingError>)
    ensures
        ran(
            r,
            insert_bundle_outcome(
                old(tables)@,
                round_id@,
                wallet_id@,
                bundle_index,
                new_bundle(positions@, identities.model()),
            ),
            old(tables)@,
            final(tables)@,
        ),
{
    if tables.bundle(round_id, wallet_id, bundle_index).is_some() {
        return Err(
            Message::new("failed to insert bundle: ").text(
                key_taken_text(
                    "voting_bundles.round_id, voting_bundles.wallet_id, voting_bundles.bundle_index",
                ).as_str(),
            ).internal(),
        );
    }
    if tables.round(round_id, wallet_id).is_none() {
        return Err(Message::new("failed to insert bundle: ").text(no_parent_text()).internal());
    }
    tables.bundles.put(
        BundleRow {
            round_id: round_id.to_owned(),
            wallet_id: wallet_id.to_owned(),
            bundle_index: bundle_index as i64,
            note_positions_blob: Some(positions),
            note_identity_hashes_blob: identities,
            van_comm_rand: None,
            dummy_nullifiers: None,
            rho_signed: None,
            padded_note_data: None,
            nf_signed: None,
            cmx_new: None,
            alpha: None,
            rseed_signed: None,
            rseed_output: None,
            gov_comm: None,
            total_note_value: None,
            address_index: None,
            rk: None,
            gov_nullifiers_blob: None,
            padded_note_secrets: None,
            pczt_sighash: None,
            tx1_effects: None,
            van_leaf_position: None,
            delegation_tx_hash: None,
        },
    );
    Ok(())
}

/// Stores a new bundle with the positions of its notes only.
///
/// Such a bundle has no note identities, so [`require_bundle_notes`] compares
/// positions only. [`insert_bundle_notes`] stores both.
pub fn insert_bundle(
    tables: &mut VotingTables,
    round_id: &str,
    wallet_id: &str,
    bundle_index: u32,
    positions: &[u64],
) -> (r: Result<(), VotingError>)
    ensures
        ran(
            r,
            insert_bundle_outcome(
                old(tables)@,
                round_id@,
                wallet_id@,
                bundle_index,
                new_bundle(positions_blob(positions@), None),
            ),
            old(tables)@,
            final(tables)@,
        ),
{
    let blob = note_positions_blob(positions);
    insert_bundle_row(tables, round_id, wallet_id, bundle_index, blob, None)
}

/// Stores a new bundle with the positions and the identities of its notes.
pub fn insert_bundle_notes(
    tables: &mut VotingTables,
    round_id: &str,
    wallet_id: &str,
    bundle_index: u32,
    notes: &[NoteInfo],
) -> (r: Result<(), VotingError>)
    ensures
        ran(
            r,
            insert_bundle_outcome(
                old(tables)@,
                round_id@,
                wallet_id@,
                bundle_index,
                new_bundle(
                    positions_blob(positions_of(notes_of(notes@))),
                    Some(joined(identities_of(notes_of(notes@)))),
                ),
            ),
            old(tables)@,
            final(tables)@,
        ),
{
    let blob = note_positions_blob_for_notes(notes);
    let identities = note_identity_hashes_blob(notes);
    insert_bundle_row(tables, round_id, wallet_id, bundle_index, blob, Some(identities))
}

/// The bundles of a round.
pub open spec fn bundles_of(tables: Tables, round: RoundKey) -> Set<BundleKey> {
    tables.bundles.dom().filter(|key: BundleKey| key.round == round)
}

/// Counts the bundles of a round, modulo the range of `u32`.
pub fn get_bundle_count(tables: &VotingTables, round_id: &str, wallet_id: &str) -> (r: Result<
    u32,
    VotingError,
>)
    ensures
        bundles_of(tables@, round_key(round_id@, wallet_id@)).finite(),
        r == Ok::<u32, VotingError>(
            bundles_of(tables@, round_key(round_id@, wallet_id@)).len() as u32,
        ),
{
    let n: usize = tables.bundles.count(&OfRound { round_id, wallet_id });
    proof {
        assert(bundles_of(tables@, round_key(round_id@, wallet_id@))
            =~= crate::storage::table::accepted::<BundleRow, OfRound>(
            tables@.bundles,
            OfRound { round_id, wallet_id },
        ));
    }
    Ok(n as u32)
}

/// A round has bundles that were imported without local notes.
pub open spec fn has_imported_bundles(tables: Tables, round: RoundKey) -> bool {
    exists|key: BundleKey| #[trigger]
        tables.bundles.contains_key(key) && key.round == round
            && tables.bundles[key].note_positions_blob is None
}

struct Imported<'a> {
    round_id: &'a str,
    wallet_id: &'a str,
}

impl<'a> Filter<BundleRow> for Imported<'a> {
    closed spec fn accepts(&self, key: BundleKey, data: BundleColumns) -> bool {
        key.round == round_key(self.round_id@, self.wallet_id@) && data.note_positions_blob is None
    }

    fn test(&self, row: &BundleRow) -> bool {
        row.note_positions_blob.is_none() && (OfRound {
            round_id: self.round_id,
            wallet_id: self.wallet_id,
        }).test(row)
    }
}

/// Says whether a round has imported bundles.
///
/// Imported bundles omit note positions; bundles of local notes always have them.
pub fn round_has_imported_capability_bundles(
    tables: &VotingTables,
    round_id: &str,
    wallet_id: &str,
) -> (has: bool)
    ensures
        has == has_imported_bundles(tables@, round_key(round_id@, wallet_id@)),
{
    let found = tables.bundles.find(&Imported { round_id, wallet_id });
    proof {
        if let Some(row) = found {
            assert(tables@.bundles.contains_key(row.key()));
        }
    }
    found.is_some()
}

/// The bundles of a round whose delegation is not confirmed.
pub open spec fn unconfirmed_bundles(tables: Tables, round: RoundKey) -> Set<BundleKey> {
    tables.bundles.dom().filter(
        |key: BundleKey| key.round == round && tables.bundles[key].van_leaf_position is None,
    )
}

/// A number is the least index among some bundles.
pub open spec fn is_least_index(index: i64, keys: Set<BundleKey>) -> bool {
    &&& exists|key: BundleKey| #[trigger] keys.contains(key) && key.bundle_index == index
    &&& forall|key: BundleKey| #[trigger] keys.contains(key) ==> index <= key.bundle_index
}

/// The least index among some bundles, if there are any.
pub open spec fn least_index(keys: Set<BundleKey>) -> i64 {
    choose|index: i64| is_least_index(index, keys)
}

proof fn lemma_least_index(index: i64, keys: Set<BundleKey>)
    requires
        is_least_index(index, keys),
    ensures
        least_index(keys) == index,
{
    let other = least_index(keys);
    assert(is_least_index(other, keys));
    let a = choose|key: BundleKey| #[trigger] keys.contains(key) && key.bundle_index == index;
    let b = choose|key: BundleKey| #[trigger] keys.contains(key) && key.bundle_index == other;
    assert(keys.contains(a) && keys.contains(b));
}

/// A round with imported bundles takes votes once all its delegations are confirmed.
pub open spec fn capability_confirmed_outcome(
    tables: Tables,
    round_id: Text,
    wallet_id: Text,
) -> Result<(), Fault> {
    let round = round_key(round_id, wallet_id);
    let pending = unconfirmed_bundles(tables, round);
    if has_imported_bundles(tables, round) && pending != Set::<BundleKey>::empty() {
        Err(
            Fault::InvalidInput(
                "imported capability round "@ + round_id
                    + " cannot create votes until every delegation is confirmed; bundle "@
                    + decimal(least_index(pending) as int) + " is still unconfirmed"@,
            ),
        )
    } else {
        Ok(())
    }
}

struct Unconfirmed<'a> {
    round_id: &'a str,
    wallet_id: &'a str,
}

impl<'a> Filter<BundleRow> for Unconfirmed<'a> {
    closed spec fn accepts(&self, key: BundleKey, data: BundleColumns) -> bool {
        key.round == round_key(self.round_id@, self.wallet_id@) && data.van_leaf_position is None
    }

    fn test(&self, row: &BundleRow) -> bool {
        row.van_leaf_position.is_none() && (OfRound {
            round_id: self.round_id,
            wallet_id: self.wallet_id,
        }).test(row)
    }
}

/// By bundle index.
pub struct ByBundle;

impl Order<BundleRow> for ByBundle {
    open spec fn rank(&self, key: BundleKey, data: BundleColumns) -> (int, int, int) {
        (key.bundle_index as int, 0, 0)
    }

    fn rank_of(&self, row: &BundleRow) -> (i64, i64, i64) {
        (row.bundle_index, 0, 0)
    }
}

/// Requires every delegation of a round with imported bundles to be confirmed
/// before votes are created.
///
/// Rounds with local bundles only are not restricted.
pub fn require_capability_delegations_confirmed(
    tables: &VotingTables,
    round_id: &str,
    wallet_id: &str,
) -> (r: Result<(), VotingError>)
    ensures
        answers(r, capability_confirmed_outcome(tables@, round_id@, wallet_id@)),
{
    if !round_has_imported_capability_bundles(tables, round_id, wallet_id) {
        return Ok(());
    }
    let pending = tables.bundles.select(&Unconfirmed { round_id, wallet_id }, &ByBundle);
    let ghost keys = keys_of(pending@);
    let ghost set = unconfirmed_bundles(tables@, round_key(round_id@, wallet_id@));
    proof {
        assert(set =~= keys.to_set());
    }
    if pending.len() == 0 {
        assert(set =~= Set::<BundleKey>::empty());
        return Ok(());
    }
    let bundle_index: i64 = pending[0].bundle_index;
    proof {
        assert(keys.contains(keys[0]));
        assert(set.contains(keys[0]));
        assert forall|key: BundleKey| #[trigger] set.contains(key) implies bundle_index
            <= key.bundle_index by {
            let i = choose|i: int| 0 <= i < keys.len() && keys[i] == key;
            assert(keys[i] == key && keys[0].bundle_index == bundle_index);
        }
        assert(is_least_index(bundle_index, set));
        lemma_least_index(bundle_index, set);
    }
    Err(
        Message::new("imported capability round ").text(round_id).text(
            " cannot create votes until every delegation is confirmed; bundle ",
        ).number(bundle_index as i128).text(" is still unconfirmed").invalid(),
    )
}

/// What is read from an empty column: an empty byte string.
pub open spec fn bytes_or_empty(column: Option<Bytes>) -> Bytes {
    match column {
        Some(bytes) => bytes,
        None => Seq::empty(),
    }
}

/// Copies a column, an empty one as an empty byte string.
pub fn copy_or_empty(column: &Option<Vec<u8>>) -> (bytes: Vec<u8>)
    ensures
        bytes@ == bytes_or_empty(column.model()),
{
    match column {
        Some(bytes) => crate::bytes::copy_bytes(bytes.as_slice()),
        None => {
            let empty: Vec<u8> = Vec::new();
            assert(empty@ =~= Seq::<u8>::empty());
            empty
        },
    }
}

/// The note positions of a bundle.
pub open spec fn note_positions_outcome(
    tables: Tables,
    round_id: Text,
    wallet_id: Text,
    bundle_index: u32,
) -> Result<Seq<u64>, Fault> {
    let key = bundle_key(round_id, wallet_id, bundle_index as int);
    if !tables.bundles.contains_key(key) {
        Err(bundle_unread("bundle not found:"@, round_id, bundle_index))
    } else {
        stored_positions(bytes_or_empty(tables.bundles[key].note_positions_blob))
    }
}

/// Loads the note positions of a bundle.
pub fn load_bundle_note_positions(
    tables: &VotingTables,
    round_id: &str,
    wallet_id: &str,
    bundle_index: u32,
) -> (r: Result<Vec<u64>, VotingError>)
    ensures
        answers(r, note_positions_outcome(tables@, round_id@, wallet_id@, bundle_index)),
{
    match tables.bundle(round_id, wallet_id, bundle_index) {
        Some(row) => decode_note_positions_blob(
            copy_or_empty(&row.note_positions_blob).as_slice(),
        ),
        None => Err(bundle_unread_error("bundle not found:", round_id, bundle_index)),
    }
}

/// The first place from `from` on where two lists differ, or their end.
pub open spec fn first_difference(a: Seq<Bytes>, b: Seq<Bytes>, from: int) -> int
    decreases a.len() - from,
{
    if from >= a.len() {
        a.len() as int
    } else if a[from] != b[from] {
        from
    } else {
        first_difference(a, b, from + 1)
    }
}

/// The notes of a bundle must be those it was set up with, in the same order.
/// A bundle without note identities is compared by positions only.
pub open spec fn require_notes_outcome(
    tables: Tables,
    round_id: Text,
    wallet_id: Text,
    bundle_index: u32,
    notes: Seq<NoteModel>,
) -> Result<(), Fault> {
    let key = bundle_key(round_id, wallet_id, bundle_index as int);
    match note_positions_outcome(tables, round_id, wallet_id, bundle_index) {
        Err(fault) => Err(fault),
        Ok(positions) => if positions != positions_of(notes) {
            Err(
                Fault::InvalidInput(
                    "bundle_index "@ + decimal(bundle_index as int)
                        + " notes do not match persisted setup: stored positions "@ + decimal_list(
                        positions,
                    ) + ", requested positions "@ + decimal_list(positions_of(notes)),
                ),
            )
        } else {
            match tables.bundles[key].note_identity_hashes_blob {
                None => Ok(()),
                Some(blob) => identities_match(bundle_index, blob, identities_of(notes)),
            }
        },
    }
}

/// Stored note identities must be those of the requested notes.
pub open spec fn identities_match(
    bundle_index: u32,
    blob: Bytes,
    requested: Seq<Bytes>,
) -> Result<(), Fault> {
    let stored = entries_of(blob, 32);
    if blob.len() % 32 != 0 {
        Err(
            Fault::Internal(
                "corrupt note_identity_hashes_blob: length "@ + decimal(blob.len() as int)
                    + " is not a multiple of 32"@,
            ),
        )
    } else if stored.len() != requested.len() {
        Err(
            Fault::InvalidInput(
                "bundle_index "@ + decimal(bundle_index as int)
                    + " note identity count mismatch: stored "@ + decimal(stored.len() as int)
                    + ", requested "@ + decimal(requested.len() as int),
            ),
        )
    } else if stored != requested {
        Err(
            Fault::InvalidInput(
                "bundle_index "@ + decimal(bundle_index as int)
                    + " note identity mismatch at index "@ + decimal(
                    first_difference(stored, requested, 0),
                ),
            ),
        )
    } else {
        Ok(())
    }
}

/// Compares two lists of numbers.
pub fn u64s_eq(a: &[u64], b: &[u64]) -> (r: bool)
    ensures
        r == (a@ == b@),
{
    if a.len() != b.len() {
        return false;
    }
    let mut i: usize = 0;
    while i < a.len()
        invariant
            i <= a.len(),
            a.len() == b.len(),
            forall|j: int| 0 <= j < i ==> a@[j] == b@[j],
        decreases a.len() - i,
    {
        if a[i] != b[i] {
            return false;
        }
        i += 1;
    }
    assert(a@ =~= b@);
    true
}

fn require_identities(bundle_index: u32, blob: &[u8], notes: &[NoteInfo]) -> (r: Result<
    (),
    VotingError,
>)
    ensures
        answers(r, identities_match(bundle_index, blob@, identities_of(notes_of(notes@)))),
{
    if blob.len() % 32 != 0 {
        return Err(
            Message::new("corrupt note_identity_hashes_blob: length ").number(
                blob.len() as i128,
            ).text(" is not a multiple of 32").internal(),
        );
    }
    let stored = split_entries(blob, 32);
    if stored.len() != notes.len() {
        return Err(
            Message::new("bundle_index ").number(bundle_index as i128).text(
                " note identity count mismatch: stored ",
            ).number(stored.len() as i128).text(", requested ").number(
                notes.len() as i128,
            ).invalid(),
        );
    }
    let ghost parts = entries_of(blob@, 32);
    let ghost requested = identities_of(notes_of(notes@));
    let mut i: usize = 0;
    while i < notes.len()
        invariant
            i <= notes@.len(),
            stored@.len() == notes@.len(),
            parts == stored.model(),
            requested == identities_of(notes_of(notes@)),
            parts == entries_of(blob@, 32),
            blob@.len() % 32 == 0,
            first_difference(parts, requested, 0) == first_difference(parts, requested, i as int),
            forall|j: int| 0 <= j < i ==> parts[j] == requested[j],
        decreases notes.len() - i,
    {
        let hash = note_identity_hash(&notes[i]);
        assert(parts[i as int] == stored@[i as int]@);
        assert(requested[i as int] == hash@);
        if !bytes_eq(stored[i].as_slice(), hash.as_slice()) {
            return Err(
                Message::new("bundle_index ").number(bundle_index as i128).text(
                    " note identity mismatch at index ",
                ).number(i as i128).invalid(),
            );
        }
        i += 1;
    }
    assert(parts =~= requested);
    Ok(())
}

/// Requires the notes of a bundle to be those it was set up with.
pub fn require_bundle_notes(
    tables: &VotingTables,
    round_id: &str,
    wallet_id: &str,
    bundle_index: u32,
    notes: &[NoteInfo],
) -> (r: Result<(), VotingError>)
    ensures
        answers(
            r,
            require_notes_outcome(tables@, round_id@, wallet_id@, bundle_index, notes_of(notes@)),
        ),
{
    let stored = match load_bundle_note_positions(tables, round_id, wallet_id, bundle_index) {
        Ok(positions) => positions,
        Err(error) => return Err(error),
    };
    let requested = note_positions(notes);
    if !u64s_eq(stored.as_slice(), requested.as_slice()) {
        return Err(
            Message::new("bundle_index ").number(bundle_index as i128).text(
                " notes do not match persisted setup: stored positions ",
            ).numbers(stored.as_slice()).text(", requested positions ").numbers(
                requested.as_slice(),
            ).invalid(),
        );
    }
    match tables.bundle(round_id, wallet_id, bundle_index) {
        Some(row) => match &row.note_identity_hashes_blob {
            Some(blob) => require_identities(bundle_index, blob.as_slice(), notes),
            None => Ok(()),
        },
        None => Ok(()),
    }
}

/// The tables without the bundles of a round from one index on, and without
/// what belongs to these bundles.
pub open spec fn without_bundles(tables: Tables, round: RoundKey, from_index: int) -> Tables {
    Tables {
        bundles: tables.bundles.remove_keys(
            Set::new(|key: BundleKey| key.round == round && key.bundle_index >= from_index),
        ),
        proofs: tables.proofs.remove_keys(
            Set::new(|key: BundleKey| key.round == round && key.bundle_index >= from_index),
        ),
        keystone_signatures: tables.keystone_signatures.remove_keys(
            Set::new(|key: BundleKey| key.round == round && key.bundle_index >= from_index),
        ),
        witnesses: tables.witnesses.remove_keys(
            Set::new(
                |key: WitnessKey|
                    key.bundle.round == round && key.bundle.bundle_index >= from_index,
            ),
        ),
        imt_proofs: tables.imt_proofs.remove_keys(
            Set::new(
                |key: ImtKey| key.bundle.round == round && key.bundle.bundle_index >= from_index,
            ),
        ),
        votes: tables.votes.remove_keys(
            Set::new(
                |key: VoteKey| key.bundle.round == round && key.bundle.bundle_index >= from_index,
            ),
        ),
        share_delegations: tables.share_delegations.remove_keys(
            Set::new(
                |key: ShareKey|
                    key.vote.bundle.round == round && key.vote.bundle.bundle_index >= from_index,
            ),
        ),
        ..tables
    }
}

/// The bundles of a round from one index on.
pub open spec fn bundles_from(tables: Tables, round: RoundKey, from_index: int) -> Set<BundleKey> {
    tables.bundles.dom().filter(
        |key: BundleKey| key.round == round && key.bundle_index >= from_index,
    )
}

/// Bundles of local notes can be deleted; bundles of an imported round cannot.
pub open spec fn delete_bundles_outcome(
    tables: Tables,
    round_id: Text,
    wallet_id: Text,
    from_index: u32,
) -> Result<(Tables, u64), Fault> {
    let round = round_key(round_id, wallet_id);
    if has_imported_bundles(tables, round) {
        Err(
            Fault::InvalidInput(
                "imported capability round "@ + round_id
                    + " cannot delete bundles independently; clear the round before importing a complete replacement capability"@,
            ),
        )
    } else {
        Ok(
            (
                without_bundles(tables, round, from_index as int),
                bundles_from(tables, round, from_index as int).len() as u64,
            ),
        )
    }
}

/// Deletes the bundles of a round from `from_index` on, with all that belongs
/// to them, and says how many they were.
///
/// Bundles that were skipped are removed so that the state of the round is that
/// of the bundles which were signed and proven. An imported round is replaced
/// as a whole instead.
pub fn delete_bundles_from(
    tables: &mut VotingTables,
    round_id: &str,
    wallet_id: &str,
    from_index: u32,
) -> (r: Result<u64, VotingError>)
    ensures
        ran_with(
            r,
            delete_bundles_outcome(old(tables)@, round_id@, wallet_id@, from_index),
            old(tables)@,
            final(tables)@,
        ),
{
    if round_has_imported_capability_bundles(tables, round_id, wallet_id) {
        return Err(
            Message::new("imported capability round ").text(round_id).text(
                " cannot delete bundles independently; clear the round before importing a complete replacement capability",
            ).invalid(),
        );
    }
    let from = FromBundle { round_id, wallet_id, from_index: from_index as i64 };
    let n: usize = tables.bundles.remove_where(&from);
    tables.proofs.remove_where(&from);
    tables.keystone_signatures.remove_where(&from);
    tables.witnesses.remove_where(&from);
    tables.imt_proofs.remove_where(&from);
    tables.votes.remove_where(&from);
    tables.share_delegations.remove_where(&from);
    proof {
        let round = round_key(round_id@, wallet_id@);
        let left = without_bundles(old(tables)@, round, from_index as int);
        assert(tables@.bundles =~= left.bundles);
        assert(tables@.proofs =~= left.proofs);
        assert(tables@.keystone_signatures =~= left.keystone_signatures);
        assert(tables@.witnesses =~= left.witnesses);
        assert(tables@.imt_proofs =~= left.imt_proofs);
        assert(tables@.votes =~= left.votes);
        assert(tables@.share_delegations =~= left.share_delegations);
        assert(bundles_from(old(tables)@, round, from_index as int)
            =~= crate::storage::table::accepted::<BundleRow, FromBundle>(
            old(tables)@.bundles,
            from,
        ));
    }
    Ok(n as u64)
}

/// The VAN leaf position of a bundle is set, in place of any before.
pub open spec fn store_van_position_outcome(
    tables: Tables,
    round_id: Text,
    wallet_id: Text,
    bundle_index: u32,
    position: u32,
) -> Result<Tables, Fault> {
    let key = bundle_key(round_id, wallet_id, bundle_index as int);
    if !tables.bundles.contains_key(key) {
        Err(bundle_missing(round_id, bundle_index))
    } else {
        Ok(
            with_bundle(
                tables,
                key,
                BundleColumns { van_leaf_position: Some(position as i64), ..tables.bundles[key] },
            ),
        )
    }
}

/// Stores the VAN leaf position of a bundle once its delegation is confirmed.
pub fn store_van_position(
    tables: &mut VotingTables,
    round_id: &str,
    wallet_id: &str,
    bundle_index: u32,
    position: u32,
) -> (r: Result<(), VotingError>)
    ensures
        ran(
            r,
            store_van_position_outcome(
                old(tables)@,
                round_id@,
                wallet_id@,
                bundle_index,
                position,
            ),
            old(tables)@,
            final(tables)@,
        ),
{
    match tables.bundles.take(
        &OfBundle { round_id, wallet_id, bundle_index: bundle_index as i64 },
    ) {
        Some(mut row) => {
            let ghost key = row.key();
            row.van_leaf_position = Some(position as i64);
            tables.bundles.put(row);
            assert(tables@.bundles =~= old(tables)@.bundles.insert(key, row.data()));
            Ok(())
        },
        None => Err(bundle_missing_error(round_id, bundle_index)),
    }
}

/// The VAN leaf position of a bundle.
pub open spec fn van_position_outcome(
    tables: Tables,
    round_id: Text,
    wallet_id: Text,
    bundle_index: u32,
) -> Result<u32, Fault> {
    let key = bundle_key(round_id, wallet_id, bundle_index as int);
    if !tables.bundles.contains_key(key) {
        Err(bundle_unread("no van_leaf_position for"@, round_id, bundle_index))
    } else {
        match tables.bundles[key].van_leaf_position {
            None => Err(
                Fault::InvalidInput(
                    "van_leaf_position not yet set for round="@ + round_id + ", bundle="@ + decimal(
                        bundle_index as int,
                    ),
                ),
            ),
            Some(position) => Ok(position as u32),
        }
    }
}

/// Loads the VAN leaf position of a bundle.
pub fn load_van_position(
    tables: &VotingTables,
    round_id: &str,
    wallet_id: &str,
    bundle_index: u32,
) -> (r: Result<u32, VotingError>)
    ensures
        answers(r, van_position_outcome(tables@, round_id@, wallet_id@, bundle_index)),
{
    match tables.bundle(round_id, wallet_id, bundle_index) {
        Some(row) => match row.van_leaf_position {
            Some(position) => Ok(position as u32),
            None => Err(
                Message::new("van_leaf_position not yet set for round=").text(round_id).text(
                    ", bundle=",
                ).number(bundle_index as i128).invalid(),
            ),
        },
        None => Err(bundle_unread_error("no van_leaf_position for", round_id, bundle_index)),
    }
}

} // verus!
