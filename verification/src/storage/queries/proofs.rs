//! Cached tree states, non-membership proofs and delegation proofs.

use vstd::prelude::*;

use crate::bytes::{bytes_eq, copy_bytes, joined};
use crate::storage::faults::{no_parent, no_parent_text, no_row, no_row_text};
use crate::storage::field::{
    field_from_bytes, field_to_bytes, fields_from_blob, fields_to_blob, path_fields, stored_field,
    stored_fields, three_fields, ImtProofData, ImtProofModel,
};
use crate::storage::rows::{
    bundle_key, round_key, ImtColumns, ImtKey, ImtProofRow, OfBundle, OfNullifier, OfRound,
    ProofColumns, ProofRow, TreeStateColumns, TreeStateRow,
};
use crate::storage::table::Row;
use crate::storage::tables::{ran, Tables, VotingTables};
use crate::text::decimal;
use crate::types::{answers, Bytes, Fault, Message, Modeled, Text, VotingError};

verus! {

/// The tree state of a round is cached, in place of any before.
pub open spec fn store_tree_state_outcome(
    tables: Tables,
    round_id: Text,
    wallet_id: Text,
    snapshot_height: u64,
    tree_state: Bytes,
) -> Result<Tables, Fault> {
    let key = round_key(round_id, wallet_id);
    if !tables.rounds.contains_key(key) {
        Err(Fault::Internal("failed to store tree state: "@ + no_parent()))
    } else {
        Ok(
            Tables {
                tree_states: tables.tree_states.insert(
                    key,
                    TreeStateColumns { snapshot_height: snapshot_height as i64, tree_state },
                ),
                ..tables
            },
        )
    }
}

/// Caches the tree state of a round.
pub fn store_tree_state(
    tables: &mut VotingTables,
    round_id: &str,
    wallet_id: &str,
    snapshot_height: u64,
    tree_state: &[u8],
) -> (r: Result<(), VotingError>)
    ensures
        ran(
            r,
            store_tree_state_outcome(
                old(tables)@,
                round_id@,
                wallet_id@,
                snapshot_height,
                tree_state@,
            ),
            old(tables)@,
            final(tables)@,
        ),
{
    if tables.round(round_id, wallet_id).is_none() {
        return Err(Message::new("failed to store tree state: ").text(no_parent_text()).internal());
    }
    tables.tree_states.put(
        TreeStateRow {
            round_id: round_id.to_owned(),
            wallet_id: wallet_id.to_owned(),
            snapshot_height: snapshot_height as i64,
            tree_state: copy_bytes(tree_state),
        },
    );
    Ok(())
}

/// The cached tree state of a round.
pub open spec fn tree_state_outcome(tables: Tables, round_id: Text, wallet_id: Text) -> Result<
    Bytes,
    Fault,
> {
    let key = round_key(round_id, wallet_id);
    if !tables.tree_states.contains_key(key) {
        Err(
            Fault::InvalidInput(
                "no cached tree state for round: "@ + round_id + " ("@ + no_row() + ")"@,
            ),
        )
    } else {
        Ok(tables.tree_states[key].tree_state)
    }
}

/// Loads the cached tree state of a round.
pub fn load_tree_state(tables: &VotingTables, round_id: &str, wallet_id: &str) -> (r: Result<
    Vec<u8>,
    VotingError,
>)
    ensures
        answers(r, tree_state_outcome(tables@, round_id@, wallet_id@)),
{
    match tables.tree_states.find(&OfRound { round_id, wallet_id }) {
        Some(row) => Ok(copy_bytes(row.tree_state.as_slice())),
        None => Err(
            Message::new("no cached tree state for round: ").text(round_id).text(" (").text(
                no_row_text(),
            ).text(")").invalid(),
        ),
    }
}

/// The key of a non-membership proof.
pub open spec fn imt_key(
    round_id: Text,
    wallet_id: Text,
    bundle_index: u32,
    nullifier: Bytes,
) -> ImtKey {
    ImtKey { bundle: bundle_key(round_id, wallet_id, bundle_index as int), nullifier }
}

/// A non-membership proof is cached for a bundle that exists, in place of any
/// before.
pub open spec fn store_imt_proof_outcome(
    tables: Tables,
    round_id: Text,
    wallet_id: Text,
    bundle_index: u32,
    nullifier: Bytes,
    proof: ImtProofModel,
    now: i64,
) -> Result<Tables, Fault> {
    let key = imt_key(round_id, wallet_id, bundle_index, nullifier);
    if !tables.imt_proofs.contains_key(key) && !tables.bundles.contains_key(key.bundle) {
        Err(
            Fault::Internal(
                "failed to store IMT proof for bundle "@ + decimal(bundle_index as int) + ": "@
                    + no_parent(),
            ),
        )
    } else {
        Ok(
            Tables {
                imt_proofs: tables.imt_proofs.insert(
                    key,
                    ImtColumns {
                        root: proof.root,
                        nf_bounds: joined(proof.nf_bounds),
                        leaf_pos: proof.leaf_pos as i64,
                        path: joined(proof.path),
                        created_at: now,
                    },
                ),
                ..tables
            },
        )
    }
}

/// Caches at `now` the non-membership proof of a nullifier of a bundle.
pub fn store_imt_proof(
    tables: &mut VotingTables,
    round_id: &str,
    wallet_id: &str,
    bundle_index: u32,
    nullifier: &[u8],
    proof: &ImtProofData,
    now: i64,
) -> (r: Result<(), VotingError>)
    ensures
        ran(
            r,
            store_imt_proof_outcome(
                old(tables)@,
                round_id@,
                wallet_id@,
                bundle_index,
                nullifier@,
                proof.model(),
                now,
            ),
            old(tables)@,
            final(tables)@,
        ),
{
    let stored = tables.imt_proofs.find(
        &OfNullifier { round_id, wallet_id, bundle_index: bundle_index as i64, nullifier },
    ).is_some();
    if !stored && tables.bundle(round_id, wallet_id, bundle_index).is_none() {
        return Err(
            Message::new("failed to store IMT proof for bundle ").number(
                bundle_index as i128,
            ).text(": ").text(no_parent_text()).internal(),
        );
    }
    tables.imt_proofs.put(
        ImtProofRow {
            round_id: round_id.to_owned(),
            wallet_id: wallet_id.to_owned(),
            bundle_index: bundle_index as i64,
            nullifier: copy_bytes(nullifier),
            root: field_to_bytes(proof.root),
            nf_bounds: fields_to_blob(proof.nf_bounds.as_slice()),
            leaf_pos: proof.leaf_pos as i64,
            path: fields_to_blob(proof.path.as_slice()),
            created_at: now,
        },
    );
    Ok(())
}

/// A cached non-membership proof as it is stored.
pub open spec fn stored_imt_proof(stored: ImtColumns) -> Result<ImtProofModel, Fault> {
    match stored_field(stored.root, "imt_proof.root"@) {
        Err(fault) => Err(fault),
        Ok(root) => match stored_fields(stored.nf_bounds, 3, "imt_proof.nf_bounds"@) {
            Err(fault) => Err(fault),
            Ok(nf_bounds) => if !(0 <= stored.leaf_pos <= u32::MAX) {
                Err(
                    Fault::Internal(
                        "invalid IMT proof leaf_pos "@ + decimal(stored.leaf_pos as int),
                    ),
                )
            } else {
                match stored_fields(stored.path, 29, "imt_proof.path"@) {
                    Err(fault) => Err(fault),
                    Ok(path) => Ok(
                        ImtProofModel {
                            root,
                            nf_bounds,
                            leaf_pos: stored.leaf_pos as u32,
                            path,
                        },
                    ),
                }
            },
        },
    }
}

/// The cached non-membership proof of a nullifier for a root.
pub open spec fn imt_proof_outcome(tables: Tables, key: ImtKey, expected_root: Bytes) -> Result<
    Option<ImtProofModel>,
    Fault,
> {
    if !tables.imt_proofs.contains_key(key) || tables.imt_proofs[key].root != expected_root {
        Ok(None)
    } else {
        match stored_imt_proof(tables.imt_proofs[key]) {
            Err(fault) => Err(fault),
            Ok(proof) => Ok(Some(proof)),
        }
    }
}

fn read_imt_proof(row: &ImtProofRow) -> (r: Result<ImtProofData, VotingError>)
    ensures
        answers(r, stored_imt_proof(row.data())),
{
    let root = match field_from_bytes(row.root.as_slice(), "imt_proof.root") {
        Ok(root) => root,
        Err(error) => return Err(error),
    };
    let nf_bounds = match fields_from_blob(row.nf_bounds.as_slice(), 3, "imt_proof.nf_bounds") {
        Ok(nf_bounds) => nf_bounds,
        Err(error) => return Err(error),
    };
    if row.leaf_pos < 0 || row.leaf_pos > u32::MAX as i64 {
        return Err(
            Message::new("invalid IMT proof leaf_pos ").number(row.leaf_pos as i128).internal(),
        );
    }
    let path = match fields_from_blob(row.path.as_slice(), 29, "imt_proof.path") {
        Ok(path) => path,
        Err(error) => return Err(error),
    };
    Ok(
        ImtProofData {
            root,
            nf_bounds: three_fields(&nf_bounds),
            leaf_pos: row.leaf_pos as u32,
            path: path_fields(&path),
        },
    )
}

/// Loads the cached non-membership proof of a nullifier of a bundle, if it
/// stands for the expected root.
pub fn load_imt_proof(
    tables: &VotingTables,
    round_id: &str,
    wallet_id: &str,
    bundle_index: u32,
    nullifier: &[u8],
    expected_root: &[u8],
) -> (r: Result<Option<ImtProofData>, VotingError>)
    ensures
        answers(
            r,
            imt_proof_outcome(
                tables@,
                imt_key(round_id@, wallet_id@, bundle_index, nullifier@),
                expected_root@,
            ),
        ),
{
    match tables.imt_proofs.find(
        &OfNullifier { round_id, wallet_id, bundle_index: bundle_index as i64, nullifier },
    ) {
        Some(row) => {
            if !bytes_eq(row.root.as_slice(), expected_root) {
                return Ok(None);
            }
            match read_imt_proof(row) {
                Ok(proof) => Ok(Some(proof)),
                Err(error) => Err(error),
            }
        },
        None => Ok(None),
    }
}

/// The delegation proof of a bundle is stored as successful, in place of any
/// before; the time of the first one stays.
pub open spec fn store_proof_outcome(
    tables: Tables,
    round_id: Text,
    wallet_id: Text,
    bundle_index: u32,
    proof: Bytes,
    now: i64,
) -> Result<Tables, Fault> {
    let key = bundle_key(round_id, wallet_id, bundle_index as int);
    let created_at = if tables.proofs.contains_key(key) {
        tables.proofs[key].created_at
    } else {
        now
    };
    if !tables.proofs.contains_key(key) && !tables.bundles.contains_key(key) {
        Err(Fault::Internal("failed to store proof: "@ + no_parent()))
    } else {
        Ok(
            Tables {
                proofs: tables.proofs.insert(key, ProofColumns { proof, success: 1, created_at }),
                ..tables
            },
        )
    }
}

/// Stores at `now` the delegation proof of a bundle.
pub fn store_proof(
    tables: &mut VotingTables,
    round_id: &str,
    wallet_id: &str,
    bundle_index: u32,
    proof_bytes: &[u8],
    now: i64,
) -> (r: Result<(), VotingError>)
    ensures
        ran(
            r,
            store_proof_outcome(
                old(tables)@,
                round_id@,
                wallet_id@,
                bundle_index,
                proof_bytes@,
                now,
            ),
            old(tables)@,
            final(tables)@,
        ),
{
    let created_at: i64 = match tables.proofs.find(
        &OfBundle { round_id, wallet_id, bundle_index: bundle_index as i64 },
    ) {
        Some(stored) => stored.created_at,
        None => {
            if tables.bundle(round_id, wallet_id, bundle_index).is_none() {
                return Err(
                    Message::new("failed to store proof: ").text(no_parent_text()).internal(),
                );
            }
            now
        },
    };
    tables.proofs.put(
        ProofRow {
            round_id: round_id.to_owned(),
            wallet_id: wallet_id.to_owned(),
            bundle_index: bundle_index as i64,
            proof: copy_bytes(proof_bytes),
            success: 1,
            created_at,
        },
    );
    Ok(())
}

} // verus!
