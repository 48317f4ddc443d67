//! Keystone signatures, and cleaning up what can be redone.

use vstd::prelude::*;

use crate::bytes::copy_bytes;
use crate::storage::faults::{no_parent, no_parent_text};
use crate::storage::rows::{
    bundle_key, round_key, BundleColumns, BundleKey, BundleRow, KeystoneColumns, KeystoneRow,
    OfBundle, OfRound, RoundKey, ShareKey, VoteColumns, VoteKey, VoteRow,
};
use crate::storage::table::{keys_of, Filter, Order, Row, Table, Update};
use crate::storage::tables::{ran, Tables, VotingTables};
use crate::types::{
    answers, Bytes, Fault, KeystoneModel, KeystoneSignatureRecord, Message, Modeled, Text,
    VotingError,
};

verus! {

/// The Keystone signature of a bundle is stored, in place of any before.
pub open spec fn store_keystone_outcome(
    tables: Tables,
    round_id: Text,
    wallet_id: Text,
    bundle_index: u32,
    sig: Bytes,
    sighash: Bytes,
    rk: Bytes,
    now: u64,
) -> Result<Tables, Fault> {
    let key = bundle_key(round_id, wallet_id, bundle_index as int);
    if !tables.bundles.contains_key(key) {
        Err(Fault::Internal("failed to store keystone signature: "@ + no_parent()))
    } else {
        Ok(
            Tables {
                keystone_signatures: tables.keystone_signatures.insert(
                    key,
                    KeystoneColumns { sig, sighash, rk, created_at: now as i64 },
                ),
                ..tables
            },
        )
    }
}

/// Stores at `now` the Keystone signature of a bundle.
pub fn store_keystone_signature(
    tables: &mut VotingTables,
    round_id: &str,
    wallet_id: &str,
    bundle_index: u32,
    sig: &[u8],
    sighash: &[u8],
    rk: &[u8],
    now: u64,
) -> (r: Result<(), VotingError>)
    ensures
        ran(
            r,
            store_keystone_outcome(
                old(tables)@,
                round_id@,
                wallet_id@,
                bundle_index,
                sig@,
                sighash@,
                rk@,
                now,
            ),
            old(tables)@,
            final(tables)@,
        ),
{
    if tables.bundle(round_id, wallet_id, bundle_index).is_none() {
        return Err(
            Message::new("failed to store keystone signature: ").text(no_parent_text()).internal(),
        );
    }
    tables.keystone_signatures.put(
        KeystoneRow {
            round_id: round_id.to_owned(),
            wallet_id: wallet_id.to_owned(),
            bundle_index: bundle_index as i64,
            sig: copy_bytes(sig),
            sighash: copy_bytes(sighash),
            rk: copy_bytes(rk),
            created_at: now as i64,
        },
    );
    Ok(())
}

/// The Keystone signatures of a round, each one once, by bundle.
pub open spec fn lists_signatures(keys: Seq<BundleKey>, tables: Tables, round: RoundKey) -> bool {
    &&& keys.no_duplicates()
    &&& keys.to_set() == tables.keystone_signatures.dom().filter(
        |key: BundleKey| key.round == round,
    )
    &&& forall|i: int, j: int|
        0 <= i < j < keys.len() ==> (#[trigger] keys[i]).bundle_index <= (
        #[trigger] keys[j]).bundle_index
}

/// A Keystone signature as it is listed.
pub open spec fn signature_record(key: BundleKey, signature: KeystoneColumns) -> KeystoneModel {
    KeystoneModel {
        bundle_index: key.bundle_index as u32,
        sig: signature.sig,
        sighash: signature.sighash,
        rk: signature.rk,
    }
}

struct BySignature;

impl Order<KeystoneRow> for BySignature {
    closed spec fn rank(&self, key: BundleKey, data: KeystoneColumns) -> (int, int, int) {
        (key.bundle_index as int, 0, 0)
    }

    fn rank_of(&self, row: &KeystoneRow) -> (i64, i64, i64) {
        (row.bundle_index, 0, 0)
    }
}

/// Lists the Keystone signatures of a round.
pub fn get_keystone_signatures(tables: &VotingTables, round_id: &str, wallet_id: &str) -> (r:
    Result<Vec<KeystoneSignatureRecord>, VotingError>)
    ensures
        exists|keys: Seq<BundleKey>| #[trigger]
            lists_signatures(keys, tables@, round_key(round_id@, wallet_id@)) && answers(
                r,
                Ok(
                    keys.map_values(
                        |key: BundleKey| signature_record(key, tables@.keystone_signatures[key]),
                    ),
                ),
            ),
{
    let rows = tables.keystone_signatures.select(&OfRound { round_id, wallet_id }, &BySignature);
    let ghost round = round_key(round_id@, wallet_id@);
    let ghost keys = keys_of(rows@);
    let ghost models = keys.map_values(
        |key: BundleKey| signature_record(key, tables@.keystone_signatures[key]),
    );
    proof {
        assert(keys.to_set() =~= tables@.keystone_signatures.dom().filter(
            |key: BundleKey| key.round == round,
        ));
        assert(lists_signatures(keys, tables@, round));
    }
    let mut records: Vec<KeystoneSignatureRecord> = Vec::new();
    assert(records.model() =~= models.take(0));
    let mut i: usize = 0;
    while i < rows.len()
        invariant
            i <= rows@.len(),
            keys == keys_of(rows@),
            models == keys.map_values(
                |key: BundleKey| signature_record(key, tables@.keystone_signatures[key]),
            ),
            forall|j: int|
                0 <= j < rows@.len() ==> tables@.keystone_signatures[(#[trigger] rows@[j]).key()]
                    == rows@[j].data(),
            records.model() == models.take(i as int),
        decreases rows.len() - i,
    {
        let row = rows[i];
        let record = KeystoneSignatureRecord {
            bundle_index: row.bundle_index as u32,
            sig: copy_bytes(row.sig.as_slice()),
            sighash: copy_bytes(row.sighash.as_slice()),
            rk: copy_bytes(row.rk.as_slice()),
        };
        let ghost before = records.model();
        records.push(record);
        proof {
            assert(records.model() =~= before.push(record.model()));
            assert(record.model() == models[i as int]);
            assert(records.model() =~= models.take(i + 1));
        }
        i += 1;
    }
    assert(models.take(i as int) =~= models);
    Ok(records)
}

/// A bundle of local notes whose delegation is not signed, submitted or
/// confirmed.
pub open spec fn is_unsigned_setup(
    signatures: Map<BundleKey, KeystoneColumns>,
    key: BundleKey,
    bundle: BundleColumns,
) -> bool {
    &&& bundle.note_positions_blob is Some
    &&& bundle.delegation_tx_hash is None
    &&& bundle.van_leaf_position is None
    &&& !signatures.contains_key(key)
}

/// A bundle without what the setup of its delegation stored.
pub open spec fn setup_cleared(bundle: BundleColumns) -> BundleColumns {
    BundleColumns {
        note_positions_blob: bundle.note_positions_blob,
        note_identity_hashes_blob: bundle.note_identity_hashes_blob,
        van_leaf_position: bundle.van_leaf_position,
        delegation_tx_hash: bundle.delegation_tx_hash,
        ..super::bundles::blank_bundle()
    }
}

/// The tables without the unsigned delegation setup of a round.
pub open spec fn unsigned_setup_cleared(tables: Tables, round: RoundKey) -> Tables {
    Tables {
        bundles: tables.bundles.map_entries(
            |key: BundleKey, bundle: BundleColumns|
                if key.round == round && is_unsigned_setup(
                    tables.keystone_signatures,
                    key,
                    bundle,
                ) {
                    setup_cleared(bundle)
                } else {
                    bundle
                },
        ),
        ..tables
    }
}

struct UnsignedSetup<'a> {
    round_id: &'a str,
    wallet_id: &'a str,
    signatures: &'a Table<KeystoneRow>,
}

impl<'a> Filter<BundleRow> for UnsignedSetup<'a> {
    closed spec fn accepts(&self, key: BundleKey, data: BundleColumns) -> bool {
        key.round == round_key(self.round_id@, self.wallet_id@) && is_unsigned_setup(
            self.signatures@,
            key,
            data,
        )
    }

    fn test(&self, row: &BundleRow) -> bool {
        row.note_positions_blob.is_some() && row.delegation_tx_hash.is_none()
            && row.van_leaf_position.is_none() && (OfRound {
            round_id: self.round_id,
            wallet_id: self.wallet_id,
        }).test(row) && self.signatures.find(
            &OfBundle {
                round_id: self.round_id,
                wallet_id: self.wallet_id,
                bundle_index: row.bundle_index,
            },
        ).is_none()
    }
}

struct ClearSetup;

impl Update<BundleRow> for ClearSetup {
    closed spec fn changed(&self, data: BundleColumns) -> BundleColumns {
        setup_cleared(data)
    }

    fn run(&self, row: &mut BundleRow) {
        row.van_comm_rand = None;
        row.dummy_nullifiers = None;
        row.rho_signed = None;
        row.padded_note_data = None;
        row.nf_signed = None;
        row.cmx_new = None;
        row.alpha = None;
        row.rseed_signed = None;
        row.rseed_output = None;
        row.gov_comm = None;
        row.total_note_value = None;
        row.address_index = None;
        row.rk = None;
        row.gov_nullifiers_blob = None;
        row.padded_note_secrets = None;
        row.pczt_sighash = None;
        row.tx1_effects = None;
    }
}

/// Clears the unsigned delegation setup of a round.
///
/// Imported bundles have no note positions and are left as they are, as are
/// bundles that are signed, submitted or confirmed.
pub fn clear_unsigned_delegation_setup_fields(
    tables: &mut VotingTables,
    round_id: &str,
    wallet_id: &str,
) -> (r: Result<(), VotingError>)
    ensures
        r is Ok,
        final(tables)@ == unsigned_setup_cleared(old(tables)@, round_key(round_id@, wallet_id@)),
{
    let mut bundles: Table<BundleRow> = Table::new();
    core::mem::swap(&mut bundles, &mut tables.bundles);
    bundles.update_where(
        &UnsignedSetup { round_id, wallet_id, signatures: &tables.keystone_signatures },
        &ClearSetup,
    );
    assert(bundles@ =~= unsigned_setup_cleared(
        old(tables)@,
        round_key(round_id@, wallet_id@),
    ).bundles);
    tables.bundles = bundles;
    Ok(())
}

/// A bundle of local notes whose delegation is not confirmed, without its
/// transaction.
pub open spec fn submission_cleared(bundle: BundleColumns) -> BundleColumns {
    if bundle.note_positions_blob is Some && bundle.van_leaf_position is None {
        BundleColumns { delegation_tx_hash: None, ..bundle }
    } else {
        bundle
    }
}

/// A vote that is not confirmed, without its transaction and commitment bundle.
pub open spec fn vote_recovery_cleared(vote: VoteColumns) -> VoteColumns {
    if vote.vc_tree_position is None {
        VoteColumns { tx_hash: None, commitment_bundle_json: None, ..vote }
    } else {
        vote
    }
}

/// The tables without what can be redone in a round.
pub open spec fn recovery_cleared(tables: Tables, round: RoundKey) -> Tables {
    Tables {
        share_delegations: tables.share_delegations.remove_keys(
            Set::new(|key: ShareKey| key.vote.bundle.round == round),
        ),
        keystone_signatures: tables.keystone_signatures.remove_keys(
            Set::new(|key: BundleKey| key.round == round),
        ),
        bundles: tables.bundles.map_entries(
            |key: BundleKey, bundle: BundleColumns|
                if key.round == round {
                    submission_cleared(bundle)
                } else {
                    bundle
                },
        ),
        votes: tables.votes.map_entries(
            |key: VoteKey, vote: VoteColumns|
                if key.bundle.round == round {
                    vote_recovery_cleared(vote)
                } else {
                    vote
                },
        ),
        ..tables
    }
}

struct ClearSubmission;

impl Update<BundleRow> for ClearSubmission {
    closed spec fn changed(&self, data: BundleColumns) -> BundleColumns {
        submission_cleared(data)
    }

    fn run(&self, row: &mut BundleRow) {
        if row.note_positions_blob.is_some() && row.van_leaf_position.is_none() {
            row.delegation_tx_hash = None;
        }
    }
}

struct ClearVoteRecovery;

impl Update<VoteRow> for ClearVoteRecovery {
    closed spec fn changed(&self, data: VoteColumns) -> VoteColumns {
        vote_recovery_cleared(data)
    }

    fn run(&self, row: &mut VoteRow) {
        if row.vc_tree_position.is_none() {
            row.tx_hash = None;
            row.commitment_bundle_json = None;
        }
    }
}

/// Clears what can be redone in a round. What is confirmed, and what was
/// imported, stays.
pub fn clear_recovery_state(tables: &mut VotingTables, round_id: &str, wallet_id: &str) -> (r:
    Result<(), VotingError>)
    ensures
        r is Ok,
        final(tables)@ == recovery_cleared(old(tables)@, round_key(round_id@, wallet_id@)),
{
    let of_round = OfRound { round_id, wallet_id };
    tables.share_delegations.remove_where(&of_round);
    tables.keystone_signatures.remove_where(&of_round);
    tables.bundles.update_where(&of_round, &ClearSubmission);
    tables.votes.update_where(&of_round, &ClearVoteRecovery);
    proof {
        let cleared = recovery_cleared(old(tables)@, round_key(round_id@, wallet_id@));
        assert(tables@.share_delegations =~= cleared.share_delegations);
        assert(tables@.keystone_signatures =~= cleared.keystone_signatures);
        assert(tables@.bundles =~= cleared.bundles);
        assert(tables@.votes =~= cleared.votes);
    }
    Ok(())
}

} // verus!
