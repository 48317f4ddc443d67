//! Delegations: what is set up, proven and submitted for a bundle.

use vstd::prelude::*;

use crate::bytes::{bytes_eq, copy_bytes, entries_of, join_bytes, joined, parts_of, split_entries};
use crate::storage::faults::{
    bundle_missing, bundle_missing_error, bundle_unread, bundle_unread_error,
};
use crate::storage::notes::{
    decode_padded_note_secrets, encode_padded_note_secrets, secrets_blob, secrets_of,
    stored_secrets,
};
use crate::storage::rows::{bundle_key, BundleColumns, OfBundle};
use crate::storage::table::Row;
use crate::storage::tables::{ran, Tables, VotingTables};
use crate::text::decimal;
use crate::types::{answers, Bytes, Fault, Message, Modeled, Text, VotingError};
use super::bundles::{bytes_or_empty, copy_or_empty, with_bundle};
use super::rounds::is_proven;

verus! {

/// What the setup of a delegation persists of a bundle.
pub struct DelegationSetup {
    pub van_comm_rand: Bytes,
    pub dummy_nullifiers: Seq<Bytes>,
    pub rho_signed: Bytes,
    pub padded_cmx: Seq<Bytes>,
    pub nf_signed: Bytes,
    pub cmx_new: Bytes,
    pub alpha: Bytes,
    pub rseed_signed: Bytes,
    pub rseed_output: Bytes,
    pub gov_comm: Bytes,
    pub total_note_value: u64,
    pub address_index: u32,
    pub padded_note_secrets: Seq<(Bytes, Bytes)>,
    pub pczt_sighash: Bytes,
    pub tx1_effects: Option<Bytes>,
    pub rk: Option<Bytes>,
    pub gov_nullifiers: Option<Seq<Bytes>>,
}

/// The first of two values, or the second where there is no first.
pub open spec fn first_of(first: Option<Bytes>, second: Option<Bytes>) -> Option<Bytes> {
    if first is Some {
        first
    } else {
        second
    }
}

/// A stored value stands in the way of another one.
pub open spec fn differs(stored: Option<Bytes>, value: Bytes) -> bool {
    stored matches Some(bytes) && bytes != value
}

/// Refusal to overwrite a column of a bundle.
pub open spec fn overwrite_refused(column: Text, round_id: Text, bundle_index: u32) -> Fault {
    Fault::InvalidInput(
        "refusing to overwrite "@ + column + " for round="@ + round_id + ", bundle="@ + decimal(
            bundle_index as int,
        ),
    )
}

fn overwrite_error(column: &str, round_id: &str, bundle_index: u32) -> (error: VotingError)
    ensures
        error@ == overwrite_refused(column@, round_id@, bundle_index),
{
    Message::new("refusing to overwrite ").text(column).text(" for round=").text(round_id).text(
        ", bundle=",
    ).number(bundle_index as i128).invalid()
}

/// A bundle after its delegation is set up. Padding secrets, sighash and TX1
/// effects stay as they were first stored, and without new TX1 effects there
/// may be none; `rk` and the governance nullifiers are replaced where new ones
/// are given.
pub open spec fn set_up(bundle: BundleColumns, setup: DelegationSetup) -> BundleColumns {
    BundleColumns {
        van_comm_rand: Some(setup.van_comm_rand),
        dummy_nullifiers: Some(joined(setup.dummy_nullifiers)),
        rho_signed: Some(setup.rho_signed),
        padded_note_data: Some(joined(setup.padded_cmx)),
        nf_signed: Some(setup.nf_signed),
        cmx_new: Some(setup.cmx_new),
        alpha: Some(setup.alpha),
        rseed_signed: Some(setup.rseed_signed),
        rseed_output: Some(setup.rseed_output),
        gov_comm: Some(setup.gov_comm),
        total_note_value: Some(setup.total_note_value as i64),
        address_index: Some(setup.address_index as i64),
        padded_note_secrets: first_of(
            bundle.padded_note_secrets,
            Some(secrets_blob(setup.padded_note_secrets)),
        ),
        pczt_sighash: first_of(bundle.pczt_sighash, Some(setup.pczt_sighash)),
        tx1_effects: first_of(bundle.tx1_effects, setup.tx1_effects),
        rk: first_of(setup.rk, bundle.rk),
        gov_nullifiers_blob: match setup.gov_nullifiers {
            Some(nullifiers) => Some(joined(nullifiers)),
            None => bundle.gov_nullifiers_blob,
        },
        ..bundle
    }
}

/// A delegation is set up never over padding secrets, a sighash or TX1 effects
/// that differ from those stored. TX1 effects must be valid; where none are
/// given, none are judged or compared.
pub open spec fn store_delegation_outcome(
    tables: Tables,
    round_id: Text,
    wallet_id: Text,
    bundle_index: u32,
    setup: DelegationSetup,
    effects_valid: Result<(), VotingError>,
) -> Result<Tables, Fault> {
    let key = bundle_key(round_id, wallet_id, bundle_index as int);
    if setup.tx1_effects is Some && effects_valid is Err {
        Err(effects_valid->Err_0@)
    } else if !tables.bundles.contains_key(key) {
        Err(bundle_missing(round_id, bundle_index))
    } else if differs(
        tables.bundles[key].padded_note_secrets,
        secrets_blob(setup.padded_note_secrets),
    ) {
        Err(overwrite_refused("padded_note_secrets"@, round_id, bundle_index))
    } else if differs(tables.bundles[key].pczt_sighash, setup.pczt_sighash) {
        Err(overwrite_refused("pczt_sighash"@, round_id, bundle_index))
    } else if setup.tx1_effects is Some && differs(
        tables.bundles[key].tx1_effects,
        setup.tx1_effects->Some_0,
    ) {
        Err(overwrite_refused("tx1_effects"@, round_id, bundle_index))
    } else {
        Ok(with_bundle(tables, key, set_up(tables.bundles[key], setup)))
    }
}

fn column_differs(stored: &Option<Vec<u8>>, value: &[u8]) -> (r: bool)
    ensures
        r == differs(stored.model(), value@),
{
    match stored {
        Some(bytes) => !bytes_eq(bytes.as_slice(), value),
        None => false,
    }
}

/// Persists the setup of a delegation with its TX1 effects.
///
/// `effects_valid` is the verdict on the TX1 effects.
pub fn store_delegation_data(
    tables: &mut VotingTables,
    round_id: &str,
    wallet_id: &str,
    bundle_index: u32,
    van_comm_rand: &[u8],
    dummy_nullifiers: &[Vec<u8>],
    rho_signed: &[u8],
    padded_cmx: &[Vec<u8>],
    nf_signed: &[u8],
    cmx_new: &[u8],
    alpha: &[u8],
    rseed_signed: &[u8],
    rseed_output: &[u8],
    gov_comm: &[u8],
    total_note_value: u64,
    address_index: u32,
    padded_note_secrets: &[(Vec<u8>, Vec<u8>)],
    pczt_sighash: &[u8],
    tx1_effects: &[u8],
    effects_valid: Result<(), VotingError>,
) -> (r: Result<(), VotingError>)
    ensures
        ran(
            r,
            store_delegation_outcome(
                old(tables)@,
                round_id@,
                wallet_id@,
                bundle_index,
                (DelegationSetup {
                    van_comm_rand: van_comm_rand@,
                    dummy_nullifiers: parts_of(dummy_nullifiers@),
                    rho_signed: rho_signed@,
                    padded_cmx: parts_of(padded_cmx@),
                    nf_signed: nf_signed@,
                    cmx_new: cmx_new@,
                    alpha: alpha@,
                    rseed_signed: rseed_signed@,
                    rseed_output: rseed_output@,
                    gov_comm: gov_comm@,
                    total_note_value,
                    address_index,
                    padded_note_secrets: secrets_of(padded_note_secrets@),
                    pczt_sighash: pczt_sighash@,
                    tx1_effects: Some(tx1_effects@),
                    rk: None,
                    gov_nullifiers: None,
                }),
                effects_valid,
            ),
            old(tables)@,
            final(tables)@,
        ),
{
    store_delegation_data_inner(
        tables,
        round_id,
        wallet_id,
        bundle_index,
        van_comm_rand,
        dummy_nullifiers,
        rho_signed,
        padded_cmx,
        nf_signed,
        cmx_new,
        alpha,
        rseed_signed,
        rseed_output,
        gov_comm,
        total_note_value,
        address_index,
        padded_note_secrets,
        pczt_sighash,
        Some(tx1_effects),
        effects_valid,
        None,
        None,
    )
}

/// Persists the setup of a delegation with its TX1 effects, and with the public
/// inputs that its proof must reproduce.
pub fn store_delegation_data_with_pczt_fields(
    tables: &mut VotingTables,
    round_id: &str,
    wallet_id: &str,
    bundle_index: u32,
    van_comm_rand: &[u8],
    dummy_nullifiers: &[Vec<u8>],
    rho_signed: &[u8],
    padded_cmx: &[Vec<u8>],
    nf_signed: &[u8],
    cmx_new: &[u8],
    alpha: &[u8],
    rseed_signed: &[u8],
    rseed_output: &[u8],
    gov_comm: &[u8],
    total_note_value: u64,
    address_index: u32,
    padded_note_secrets: &[(Vec<u8>, Vec<u8>)],
    pczt_sighash: &[u8],
    tx1_effects: &[u8],
    effects_valid: Result<(), VotingError>,
    rk: &[u8],
    gov_nullifiers: &[Vec<u8>],
) -> (r: Result<(), VotingError>)
    ensures
        ran(
            r,
            store_delegation_outcome(
                old(tables)@,
                round_id@,
                wallet_id@,
                bundle_index,
                (DelegationSetup {
                    van_comm_rand: van_comm_rand@,
                    dummy_nullifiers: parts_of(dummy_nullifiers@),
                    rho_signed: rho_signed@,
                    padded_cmx: parts_of(padded_cmx@),
                    nf_signed: nf_signed@,
                    cmx_new: cmx_new@,
                    alpha: alpha@,
                    rseed_signed: rseed_signed@,
                    rseed_output: rseed_output@,
                    gov_comm: gov_comm@,
                    total_note_value,
                    address_index,
                    padded_note_secrets: secrets_of(padded_note_secrets@),
                    pczt_sighash: pczt_sighash@,
                    tx1_effects: Some(tx1_effects@),
                    rk: Some(rk@),
                    gov_nullifiers: Some(parts_of(gov_nullifiers@)),
                }),
                effects_valid,
            ),
            old(tables)@,
            final(tables)@,
        ),
{
    store_delegation_data_inner(
        tables,
        round_id,
        wallet_id,
        bundle_index,
        van_comm_rand,
        dummy_nullifiers,
        rho_signed,
        padded_cmx,
        nf_signed,
        cmx_new,
        alpha,
        rseed_signed,
        rseed_output,
        gov_comm,
        total_note_value,
        address_index,
        padded_note_secrets,
        pczt_sighash,
        Some(tx1_effects),
        effects_valid,
        Some(rk),
        Some(gov_nullifiers),
    )
}

/// The byte string of an optional slice.
pub open spec fn optional_slice(value: Option<&[u8]>) -> Option<Bytes> {
    match value {
        Some(bytes) => Some(bytes@),
        None => None,
    }
}

/// The byte strings of an optional list.
pub open spec fn optional_parts(value: Option<&[Vec<u8>]>) -> Option<Seq<Bytes>> {
    match value {
        Some(parts) => Some(parts_of(parts@)),
        None => None,
    }
}

/// Persists the setup of a delegation with what is there of TX1 effects and of
/// the public inputs that its proof must reproduce.
///
/// `effects_valid` is the verdict on the TX1 effects; without any it does not
/// matter.
pub fn store_delegation_data_inner(
    tables: &mut VotingTables,
    round_id: &str,
    wallet_id: &str,
    bundle_index: u32,
    van_comm_rand: &[u8],
    dummy_nullifiers: &[Vec<u8>],
    rho_signed: &[u8],
    padded_cmx: &[Vec<u8>],
    nf_signed: &[u8],
    cmx_new: &[u8],
    alpha: &[u8],
    rseed_signed: &[u8],
    rseed_output: &[u8],
    gov_comm: &[u8],
    total_note_value: u64,
    address_index: u32,
    padded_note_secrets: &[(Vec<u8>, Vec<u8>)],
    pczt_sighash: &[u8],
    tx1_effects: Option<&[u8]>,
    effects_valid: Result<(), VotingError>,
    rk: Option<&[u8]>,
    gov_nullifiers: Option<&[Vec<u8>]>,
) -> (r: Result<(), VotingError>)
    ensures
        ran(
            r,
            store_delegation_outcome(
                old(tables)@,
                round_id@,
                wallet_id@,
                bundle_index,
                (DelegationSetup {
                    van_comm_rand: van_comm_rand@,
                    dummy_nullifiers: parts_of(dummy_nullifiers@),
                    rho_signed: rho_signed@,
                    padded_cmx: parts_of(padded_cmx@),
                    nf_signed: nf_signed@,
                    cmx_new: cmx_new@,
                    alpha: alpha@,
                    rseed_signed: rseed_signed@,
                    rseed_output: rseed_output@,
                    gov_comm: gov_comm@,
                    total_note_value,
                    address_index,
                    padded_note_secrets: secrets_of(padded_note_secrets@),
                    pczt_sighash: pczt_sighash@,
                    tx1_effects: optional_slice(tx1_effects),
                    rk: optional_slice(rk),
                    gov_nullifiers: optional_parts(gov_nullifiers),
                }),
                effects_valid,
            ),
            old(tables)@,
            final(tables)@,
        ),
{
    if tx1_effects.is_some() {
        if let Err(error) = effects_valid {
            return Err(error);
        }
    }
    let secrets = encode_padded_note_secrets(padded_note_secrets);
    match tables.bundle(round_id, wallet_id, bundle_index) {
        None => {
            return Err(bundle_missing_error(round_id, bundle_index));
        },
        Some(stored) => {
            if column_differs(&stored.padded_note_secrets, secrets.as_slice()) {
                return Err(overwrite_error("padded_note_secrets", round_id, bundle_index));
            }
            if column_differs(&stored.pczt_sighash, pczt_sighash) {
                return Err(overwrite_error("pczt_sighash", round_id, bundle_index));
            }
            if let Some(effects) = tx1_effects {
                if column_differs(&stored.tx1_effects, effects) {
                    return Err(overwrite_error("tx1_effects", round_id, bundle_index));
                }
            }
        },
    }
    match tables.bundles.take(
        &OfBundle { round_id, wallet_id, bundle_index: bundle_index as i64 },
    ) {
        Some(mut row) => {
            let ghost key = row.key();
            row.van_comm_rand = Some(copy_bytes(van_comm_rand));
            row.dummy_nullifiers = Some(join_bytes(dummy_nullifiers));
            row.rho_signed = Some(copy_bytes(rho_signed));
            row.padded_note_data = Some(join_bytes(padded_cmx));
            row.nf_signed = Some(copy_bytes(nf_signed));
            row.cmx_new = Some(copy_bytes(cmx_new));
            row.alpha = Some(copy_bytes(alpha));
            row.rseed_signed = Some(copy_bytes(rseed_signed));
            row.rseed_output = Some(copy_bytes(rseed_output));
            row.gov_comm = Some(copy_bytes(gov_comm));
            row.total_note_value = Some(total_note_value as i64);
            row.address_index = Some(address_index as i64);
            if row.padded_note_secrets.is_none() {
                row.padded_note_secrets = Some(secrets);
            }
            if row.pczt_sighash.is_none() {
                row.pczt_sighash = Some(copy_bytes(pczt_sighash));
            }
            if row.tx1_effects.is_none() {
                if let Some(effects) = tx1_effects {
                    row.tx1_effects = Some(copy_bytes(effects));
                }
            }
            if let Some(rk) = rk {
                row.rk = Some(copy_bytes(rk));
            }
            if let Some(gov_nullifiers) = gov_nullifiers {
                row.gov_nullifiers_blob = Some(join_bytes(gov_nullifiers));
            }
            tables.bundles.put(row);
            assert(tables@.bundles =~= old(tables)@.bundles.insert(key, row.data()));
            Ok(())
        },
        None => Err(bundle_missing_error(round_id, bundle_index)),
    }
}

/// A column of a bundle; `what` says what is read. An empty column is read as
/// an empty byte string.
pub open spec fn column_outcome(
    tables: Tables,
    what: Text,
    round_id: Text,
    wallet_id: Text,
    bundle_index: u32,
    column: spec_fn(BundleColumns) -> Option<Bytes>,
) -> Result<Bytes, Fault> {
    let key = bundle_key(round_id, wallet_id, bundle_index as int);
    if !tables.bundles.contains_key(key) {
        Err(bundle_unread(what, round_id, bundle_index))
    } else {
        Ok(bytes_or_empty(column(tables.bundles[key])))
    }
}

/// Loads the nullifier of the signed note of a bundle.
pub fn load_nf_signed(
    tables: &VotingTables,
    round_id: &str,
    wallet_id: &str,
    bundle_index: u32,
) -> (r: Result<Vec<u8>, VotingError>)
    ensures
        answers(
            r,
            column_outcome(
                tables@,
                "no nf_signed for"@,
                round_id@,
                wallet_id@,
                bundle_index,
                |bundle: BundleColumns| bundle.nf_signed,
            ),
        ),
{
    match tables.bundle(round_id, wallet_id, bundle_index) {
        Some(row) => Ok(copy_or_empty(&row.nf_signed)),
        None => Err(bundle_unread_error("no nf_signed for", round_id, bundle_index)),
    }
}

/// Loads the commitment of the output note of a bundle.
pub fn load_cmx_new(
    tables: &VotingTables,
    round_id: &str,
    wallet_id: &str,
    bundle_index: u32,
) -> (r: Result<Vec<u8>, VotingError>)
    ensures
        answers(
            r,
            column_outcome(
                tables@,
                "no cmx_new for"@,
                round_id@,
                wallet_id@,
                bundle_index,
                |bundle: BundleColumns| bundle.cmx_new,
            ),
        ),
{
    match tables.bundle(round_id, wallet_id, bundle_index) {
        Some(row) => Ok(copy_or_empty(&row.cmx_new)),
        None => Err(bundle_unread_error("no cmx_new for", round_id, bundle_index)),
    }
}

/// Loads the spend authorization randomizer of a bundle.
pub fn load_alpha(
    tables: &VotingTables,
    round_id: &str,
    wallet_id: &str,
    bundle_index: u32,
) -> (r: Result<Vec<u8>, VotingError>)
    ensures
        answers(
            r,
            column_outcome(
                tables@,
                "no alpha for"@,
                round_id@,
                wallet_id@,
                bundle_index,
                |bundle: BundleColumns| bundle.alpha,
            ),
        ),
{
    match tables.bundle(round_id, wallet_id, bundle_index) {
        Some(row) => Ok(copy_or_empty(&row.alpha)),
        None => Err(bundle_unread_error("no alpha for", round_id, bundle_index)),
    }
}

/// Loads the `rseed` of the signed note of a bundle.
pub fn load_rseed_signed(
    tables: &VotingTables,
    round_id: &str,
    wallet_id: &str,
    bundle_index: u32,
) -> (r: Result<Vec<u8>, VotingError>)
    ensures
        answers(
            r,
            column_outcome(
                tables@,
                "no rseed_signed for"@,
                round_id@,
                wallet_id@,
                bundle_index,
                |bundle: BundleColumns| bundle.rseed_signed,
            ),
        ),
{
    match tables.bundle(round_id, wallet_id, bundle_index) {
        Some(row) => Ok(copy_or_empty(&row.rseed_signed)),
        None => Err(bundle_unread_error("no rseed_signed for", round_id, bundle_index)),
    }
}

/// Loads the `rseed` of the output note of a bundle.
pub fn load_rseed_output(
    tables: &VotingTables,
    round_id: &str,
    wallet_id: &str,
    bundle_index: u32,
) -> (r: Result<Vec<u8>, VotingError>)
    ensures
        answers(
            r,
            column_outcome(
                tables@,
                "no rseed_output for"@,
                round_id@,
                wallet_id@,
                bundle_index,
                |bundle: BundleColumns| bundle.rseed_output,
            ),
        ),
{
    match tables.bundle(round_id, wallet_id, bundle_index) {
        Some(row) => Ok(copy_or_empty(&row.rseed_output)),
        None => Err(bundle_unread_error("no rseed_output for", round_id, bundle_index)),
    }
}

/// Loads the sighash of the PCZT of a bundle.
pub fn load_pczt_sighash(
    tables: &VotingTables,
    round_id: &str,
    wallet_id: &str,
    bundle_index: u32,
) -> (r: Result<Vec<u8>, VotingError>)
    ensures
        answers(
            r,
            column_outcome(
                tables@,
                "no pczt_sighash for"@,
                round_id@,
                wallet_id@,
                bundle_index,
                |bundle: BundleColumns| bundle.pczt_sighash,
            ),
        ),
{
    match tables.bundle(round_id, wallet_id, bundle_index) {
        Some(row) => Ok(copy_or_empty(&row.pczt_sighash)),
        None => Err(bundle_unread_error("no pczt_sighash for", round_id, bundle_index)),
    }
}

/// Loads the VAN blinding factor of a bundle.
pub fn load_van_comm_rand(
    tables: &VotingTables,
    round_id: &str,
    wallet_id: &str,
    bundle_index: u32,
) -> (r: Result<Vec<u8>, VotingError>)
    ensures
        answers(
            r,
            column_outcome(
                tables@,
                "no van_comm_rand for"@,
                round_id@,
                wallet_id@,
                bundle_index,
                |bundle: BundleColumns| bundle.van_comm_rand,
            ),
        ),
{
    match tables.bundle(round_id, wallet_id, bundle_index) {
        Some(row) => Ok(copy_or_empty(&row.van_comm_rand)),
        None => Err(bundle_unread_error("no van_comm_rand for", round_id, bundle_index)),
    }
}

/// Loads the constrained `rho` of the signed note of a bundle.
pub fn load_rho_signed(
    tables: &VotingTables,
    round_id: &str,
    wallet_id: &str,
    bundle_index: u32,
) -> (r: Result<Vec<u8>, VotingError>)
    ensures
        answers(
            r,
            column_outcome(
                tables@,
                "no rho_signed for"@,
                round_id@,
                wallet_id@,
                bundle_index,
                |bundle: BundleColumns| bundle.rho_signed,
            ),
        ),
{
    match tables.bundle(round_id, wallet_id, bundle_index) {
        Some(row) => Ok(copy_or_empty(&row.rho_signed)),
        None => Err(bundle_unread_error("no rho_signed for", round_id, bundle_index)),
    }
}

/// Loads the TX1 effects of a bundle, for a verdict on them.
pub fn stored_tx1_effects(
    tables: &VotingTables,
    round_id: &str,
    wallet_id: &str,
    bundle_index: u32,
) -> (r: Result<Vec<u8>, VotingError>)
    ensures
        answers(
            r,
            column_outcome(
                tables@,
                "no tx1_effects for"@,
                round_id@,
                wallet_id@,
                bundle_index,
                |bundle: BundleColumns| bundle.tx1_effects,
            ),
        ),
{
    match tables.bundle(round_id, wallet_id, bundle_index) {
        Some(row) => Ok(copy_or_empty(&row.tx1_effects)),
        None => Err(bundle_unread_error("no tx1_effects for", round_id, bundle_index)),
    }
}

/// A value that is given out if it was found valid.
pub open spec fn checked<T>(outcome: Result<T, Fault>, valid: Result<(), VotingError>) -> Result<
    T,
    Fault,
> {
    match outcome {
        Err(fault) => Err(fault),
        Ok(value) => match valid {
            Err(error) => Err(error@),
            Ok(_) => Ok(value),
        },
    }
}

/// Loads the TX1 effects of a bundle.
///
/// `effects_valid` is the verdict on the stored effects.
pub fn load_tx1_effects(
    tables: &VotingTables,
    round_id: &str,
    wallet_id: &str,
    bundle_index: u32,
    effects_valid: Result<(), VotingError>,
) -> (r: Result<Vec<u8>, VotingError>)
    ensures
        answers(
            r,
            checked(
                column_outcome(
                    tables@,
                    "no tx1_effects for"@,
                    round_id@,
                    wallet_id@,
                    bundle_index,
                    |bundle: BundleColumns| bundle.tx1_effects,
                ),
                effects_valid,
            ),
        ),
{
    match stored_tx1_effects(tables, round_id, wallet_id, bundle_index) {
        Ok(effects) => match effects_valid {
            Ok(_) => Ok(effects),
            Err(error) => Err(error),
        },
        Err(error) => Err(error),
    }
}

/// The entries of 32 bytes that a blob stores; `name` is what messages call it.
pub open spec fn stored_words(blob: Bytes, name: Text) -> Result<Seq<Bytes>, Fault> {
    if blob.len() % 32 != 0 {
        Err(
            Fault::Internal(
                "corrupt "@ + name + ": length "@ + decimal(blob.len() as int)
                    + " is not a multiple of 32"@,
            ),
        )
    } else {
        Ok(entries_of(blob, 32))
    }
}

fn decode_words(blob: &[u8], name: &str) -> (r: Result<Vec<Vec<u8>>, VotingError>)
    ensures
        answers(r, stored_words(blob@, name@)),
{
    if blob.len() % 32 != 0 {
        return Err(
            Message::new("corrupt ").text(name).text(": length ").number(blob.len() as i128).text(
                " is not a multiple of 32",
            ).internal(),
        );
    }
    Ok(split_entries(blob, 32))
}

/// A column of a bundle with entries of 32 bytes.
pub open spec fn words_outcome(column: Result<Bytes, Fault>, name: Text) -> Result<
    Seq<Bytes>,
    Fault,
> {
    match column {
        Err(fault) => Err(fault),
        Ok(blob) => stored_words(blob, name),
    }
}

/// Loads the nullifiers of the padded notes of a bundle.
pub fn load_dummy_nullifiers(
    tables: &VotingTables,
    round_id: &str,
    wallet_id: &str,
    bundle_index: u32,
) -> (r: Result<Vec<Vec<u8>>, VotingError>)
    ensures
        answers(
            r,
            words_outcome(
                column_outcome(
                    tables@,
                    "no dummy_nullifiers for"@,
                    round_id@,
                    wallet_id@,
                    bundle_index,
                    |bundle: BundleColumns| bundle.dummy_nullifiers,
                ),
                "dummy_nullifiers blob"@,
            ),
        ),
{
    match tables.bundle(round_id, wallet_id, bundle_index) {
        Some(row) => decode_words(
            copy_or_empty(&row.dummy_nullifiers).as_slice(),
            "dummy_nullifiers blob",
        ),
        None => Err(bundle_unread_error("no dummy_nullifiers for", round_id, bundle_index)),
    }
}

/// Loads the commitments of the padded notes of a bundle.
pub fn load_padded_cmx(
    tables: &VotingTables,
    round_id: &str,
    wallet_id: &str,
    bundle_index: u32,
) -> (r: Result<Vec<Vec<u8>>, VotingError>)
    ensures
        answers(
            r,
            words_outcome(
                column_outcome(
                    tables@,
                    "no padded_note_data for"@,
                    round_id@,
                    wallet_id@,
                    bundle_index,
                    |bundle: BundleColumns| bundle.padded_note_data,
                ),
                "padded_note_data blob"@,
            ),
        ),
{
    match tables.bundle(round_id, wallet_id, bundle_index) {
        Some(row) => decode_words(
            copy_or_empty(&row.padded_note_data).as_slice(),
            "padded_note_data blob",
        ),
        None => Err(bundle_unread_error("no padded_note_data for", round_id, bundle_index)),
    }
}

/// Padding secrets are stored once; secrets that are there stay.
pub open spec fn store_secrets_outcome(
    tables: Tables,
    round_id: Text,
    wallet_id: Text,
    bundle_index: u32,
    secrets: Seq<(Bytes, Bytes)>,
) -> Result<Tables, Fault> {
    let key = bundle_key(round_id, wallet_id, bundle_index as int);
    if !tables.bundles.contains_key(key) {
        Err(bundle_missing(round_id, bundle_index))
    } else {
        Ok(
            with_bundle(
                tables,
                key,
                BundleColumns {
                    padded_note_secrets: first_of(
                        tables.bundles[key].padded_note_secrets,
                        Some(secrets_blob(secrets)),
                    ),
                    ..tables.bundles[key]
                },
            ),
        )
    }
}

/// Stores the padding secrets of a bundle if it has none.
pub fn store_padded_note_secrets_if_absent(
    tables: &mut VotingTables,
    round_id: &str,
    wallet_id: &str,
    bundle_index: u32,
    padded_note_secrets: &[(Vec<u8>, Vec<u8>)],
) -> (r: Result<(), VotingError>)
    ensures
        ran(
            r,
            store_secrets_outcome(
                old(tables)@,
                round_id@,
                wallet_id@,
                bundle_index,
                secrets_of(padded_note_secrets@),
            ),
            old(tables)@,
            final(tables)@,
        ),
{
    let secrets = encode_padded_note_secrets(padded_note_secrets);
    match tables.bundles.take(
        &OfBundle { round_id, wallet_id, bundle_index: bundle_index as i64 },
    ) {
        Some(mut row) => {
            let ghost key = row.key();
            if row.padded_note_secrets.is_none() {
                row.padded_note_secrets = Some(secrets);
            }
            tables.bundles.put(row);
            assert(tables@.bundles =~= old(tables)@.bundles.insert(key, row.data()));
            Ok(())
        },
        None => Err(bundle_missing_error(round_id, bundle_index)),
    }
}

/// The padding secrets of a bundle, if it has any.
pub open spec fn optional_secrets_outcome(
    tables: Tables,
    round_id: Text,
    wallet_id: Text,
    bundle_index: u32,
) -> Result<Option<Seq<(Bytes, Bytes)>>, Fault> {
    let key = bundle_key(round_id, wallet_id, bundle_index as int);
    if !tables.bundles.contains_key(key) {
        Err(bundle_unread("no padded_note_secrets for"@, round_id, bundle_index))
    } else {
        match tables.bundles[key].padded_note_secrets {
            None => Ok(None),
            Some(blob) => match stored_secrets(blob) {
                Err(fault) => Err(fault),
                Ok(secrets) => Ok(Some(secrets)),
            },
        }
    }
}

/// Loads the padding secrets of a bundle, if it has any.
pub fn load_padded_note_secrets_optional(
    tables: &VotingTables,
    round_id: &str,
    wallet_id: &str,
    bundle_index: u32,
) -> (r: Result<Option<Vec<(Vec<u8>, Vec<u8>)>>, VotingError>)
    ensures
        answers(r, optional_secrets_outcome(tables@, round_id@, wallet_id@, bundle_index)),
{
    match tables.bundle(round_id, wallet_id, bundle_index) {
        Some(row) => match &row.padded_note_secrets {
            Some(blob) => match decode_padded_note_secrets(blob.as_slice()) {
                Ok(secrets) => Ok(Some(secrets)),
                Err(error) => Err(error),
            },
            None => Ok(None),
        },
        None => Err(bundle_unread_error("no padded_note_secrets for", round_id, bundle_index)),
    }
}

/// The padding secrets of a bundle.
pub open spec fn secrets_outcome(
    tables: Tables,
    round_id: Text,
    wallet_id: Text,
    bundle_index: u32,
) -> Result<Seq<(Bytes, Bytes)>, Fault> {
    match optional_secrets_outcome(tables, round_id, wallet_id, bundle_index) {
        Err(fault) => Err(fault),
        Ok(Some(secrets)) => Ok(secrets),
        Ok(None) => Err(
            Fault::InvalidInput(
                "no padded_note_secrets for round="@ + round_id + ", bundle="@ + decimal(
                    bundle_index as int,
                ),
            ),
        ),
    }
}

/// Loads the padding secrets of a bundle.
pub fn load_padded_note_secrets(
    tables: &VotingTables,
    round_id: &str,
    wallet_id: &str,
    bundle_index: u32,
) -> (r: Result<Vec<(Vec<u8>, Vec<u8>)>, VotingError>)
    ensures
        answers(r, secrets_outcome(tables@, round_id@, wallet_id@, bundle_index)),
{
    match load_padded_note_secrets_optional(tables, round_id, wallet_id, bundle_index) {
        Ok(Some(secrets)) => Ok(secrets),
        Ok(None) => Err(
            Message::new("no padded_note_secrets for round=").text(round_id).text(
                ", bundle=",
            ).number(bundle_index as i128).invalid(),
        ),
        Err(error) => Err(error),
    }
}

/// A result of a proof differs from what was set up.
pub open spec fn proof_mismatch(field: Text) -> Fault {
    Fault::InvalidInput(
        "delegation proof result "@ + field + " does not match stored PCZT data"@,
    )
}

/// Requires a result of a proof to be what was set up, if it was set up.
pub fn require_matching_stored_field(stored: &Option<Vec<u8>>, requested: &[u8], field: &str) -> (r:
    Result<(), VotingError>)
    ensures
        answers(
            r,
            if differs(stored.model(), requested@) {
                Err(proof_mismatch(field@))
            } else {
                Ok(())
            },
        ),
{
    if column_differs(stored, requested) {
        return Err(
            Message::new("delegation proof result ").text(field).text(
                " does not match stored PCZT data",
            ).invalid(),
        );
    }
    Ok(())
}

/// The public inputs that a proof gives back.
pub struct ProofFields {
    pub rk: Bytes,
    pub gov_nullifiers: Seq<Bytes>,
    pub nf_signed: Bytes,
    pub cmx_new: Bytes,
    pub van_comm: Option<Bytes>,
}

/// The public inputs of a proof are stored if they are those that were set up,
/// where any were.
pub open spec fn store_proof_fields_outcome(
    tables: Tables,
    round_id: Text,
    wallet_id: Text,
    bundle_index: u32,
    fields: ProofFields,
) -> Result<Tables, Fault> {
    let key = bundle_key(round_id, wallet_id, bundle_index as int);
    let bundle = tables.bundles[key];
    if !tables.bundles.contains_key(key) {
        Err(bundle_unread("bundle not found:"@, round_id, bundle_index))
    } else if differs(bundle.rk, fields.rk) {
        Err(proof_mismatch("rk"@))
    } else if differs(bundle.gov_nullifiers_blob, joined(fields.gov_nullifiers)) {
        Err(proof_mismatch("gov_nullifiers"@))
    } else if differs(bundle.nf_signed, fields.nf_signed) {
        Err(proof_mismatch("nf_signed"@))
    } else if differs(bundle.cmx_new, fields.cmx_new) {
        Err(proof_mismatch("cmx_new"@))
    } else if fields.van_comm is Some && differs(bundle.gov_comm, fields.van_comm->Some_0) {
        Err(proof_mismatch("van_comm"@))
    } else {
        Ok(
            with_bundle(
                tables,
                key,
                BundleColumns {
                    rk: Some(fields.rk),
                    gov_nullifiers_blob: Some(joined(fields.gov_nullifiers)),
                    nf_signed: Some(fields.nf_signed),
                    cmx_new: Some(fields.cmx_new),
                    ..bundle
                },
            ),
        )
    }
}

/// Stores the public inputs of a delegation proof. Where they were set up
/// before, the proof must reproduce them.
pub fn store_proof_result_fields(
    tables: &mut VotingTables,
    round_id: &str,
    wallet_id: &str,
    bundle_index: u32,
    rk: &[u8],
    gov_nullifiers: &[Vec<u8>],
    nf_signed: &[u8],
    cmx_new: &[u8],
) -> (r: Result<(), VotingError>)
    ensures
        ran(
            r,
            store_proof_fields_outcome(
                old(tables)@,
                round_id@,
                wallet_id@,
                bundle_index,
                (ProofFields {
                    rk: rk@,
                    gov_nullifiers: parts_of(gov_nullifiers@),
                    nf_signed: nf_signed@,
                    cmx_new: cmx_new@,
                    van_comm: None,
                }),
            ),
            old(tables)@,
            final(tables)@,
        ),
{
    store_proof_result_fields_inner(
        tables,
        round_id,
        wallet_id,
        bundle_index,
        rk,
        gov_nullifiers,
        nf_signed,
        cmx_new,
        None,
    )
}

/// Stores the public inputs of a delegation proof, whose VAN must be the one
/// that was set up.
pub fn store_proof_result_fields_with_van_comm(
    tables: &mut VotingTables,
    round_id: &str,
    wallet_id: &str,
    bundle_index: u32,
    rk: &[u8],
    gov_nullifiers: &[Vec<u8>],
    nf_signed: &[u8],
    cmx_new: &[u8],
    van_comm: &[u8],
) -> (r: Result<(), VotingError>)
    ensures
        ran(
            r,
            store_proof_fields_outcome(
                old(tables)@,
                round_id@,
                wallet_id@,
                bundle_index,
                (ProofFields {
                    rk: rk@,
                    gov_nullifiers: parts_of(gov_nullifiers@),
                    nf_signed: nf_signed@,
                    cmx_new: cmx_new@,
                    van_comm: Some(van_comm@),
                }),
            ),
            old(tables)@,
            final(tables)@,
        ),
{
    store_proof_result_fields_inner(
        tables,
        round_id,
        wallet_id,
        bundle_index,
        rk,
        gov_nullifiers,
        nf_signed,
        cmx_new,
        Some(van_comm),
    )
}

fn store_proof_result_fields_inner(
    tables: &mut VotingTables,
    round_id: &str,
    wallet_id: &str,
    bundle_index: u32,
    rk: &[u8],
    gov_nullifiers: &[Vec<u8>],
    nf_signed: &[u8],
    cmx_new: &[u8],
    van_comm: Option<&[u8]>,
) -> (r: Result<(), VotingError>)
    ensures
        ran(
            r,
            store_proof_fields_outcome(
                old(tables)@,
                round_id@,
                wallet_id@,
                bundle_index,
                (ProofFields {
                    rk: rk@,
                    gov_nullifiers: parts_of(gov_nullifiers@),
                    nf_signed: nf_signed@,
                    cmx_new: cmx_new@,
                    van_comm: optional_slice(van_comm),
                }),
            ),
            old(tables)@,
            final(tables)@,
        ),
{
    let nullifiers = join_bytes(gov_nullifiers);
    match tables.bundle(round_id, wallet_id, bundle_index) {
        None => {
            return Err(bundle_unread_error("bundle not found:", round_id, bundle_index));
        },
        Some(stored) => {
            if let Err(error) = require_matching_stored_field(&stored.rk, rk, "rk") {
                return Err(error);
            }
            if let Err(error) = require_matching_stored_field(
                &stored.gov_nullifiers_blob,
                nullifiers.as_slice(),
                "gov_nullifiers",
            ) {
                return Err(error);
            }
            if let Err(error) = require_matching_stored_field(
                &stored.nf_signed,
                nf_signed,
                "nf_signed",
            ) {
                return Err(error);
            }
            if let Err(error) = require_matching_stored_field(&stored.cmx_new, cmx_new, "cmx_new") {
                return Err(error);
            }
            if let Some(van_comm) = van_comm {
                if let Err(error) = require_matching_stored_field(
                    &stored.gov_comm,
                    van_comm,
                    "van_comm",
                ) {
                    return Err(error);
                }
            }
        },
    }
    match tables.bundles.take(
        &OfBundle { round_id, wallet_id, bundle_index: bundle_index as i64 },
    ) {
        Some(mut row) => {
            let ghost key = row.key();
            row.rk = Some(copy_bytes(rk));
            row.gov_nullifiers_blob = Some(nullifiers);
            row.nf_signed = Some(copy_bytes(nf_signed));
            row.cmx_new = Some(copy_bytes(cmx_new));
            tables.bundles.put(row);
            assert(tables@.bundles =~= old(tables)@.bundles.insert(key, row.data()));
            Ok(())
        },
        None => Err(bundle_unread_error("bundle not found:", round_id, bundle_index)),
    }
}

/// What is submitted to the chain for a delegation.
#[derive(Clone, Debug, PartialEq, Eq)]
pub struct DelegationDbFields {
    pub proof: Vec<u8>,
    pub rk: Vec<u8>,
    pub nf_signed: Vec<u8>,
    pub cmx_new: Vec<u8>,
    pub gov_comm: Vec<u8>,
    pub gov_nullifiers: Vec<Vec<u8>>,
    pub alpha: Vec<u8>,
    pub vote_round_id: String,
    pub tx1_effects: Vec<u8>,
}

/// The meaning of [`DelegationDbFields`].
pub struct SubmissionModel {
    pub proof: Bytes,
    pub rk: Bytes,
    pub nf_signed: Bytes,
    pub cmx_new: Bytes,
    pub gov_comm: Bytes,
    pub gov_nullifiers: Seq<Bytes>,
    pub alpha: Bytes,
    pub vote_round_id: Text,
    pub tx1_effects: Bytes,
}

impl Modeled for DelegationDbFields {
    type Model = SubmissionModel;

    open spec fn model(&self) -> SubmissionModel {
        SubmissionModel {
            proof: self.proof@,
            rk: self.rk@,
            nf_signed: self.nf_signed@,
            cmx_new: self.cmx_new@,
            gov_comm: self.gov_comm@,
            gov_nullifiers: self.gov_nullifiers.model(),
            alpha: self.alpha@,
            vote_round_id: self.vote_round_id@,
            tx1_effects: self.tx1_effects@,
        }
    }
}

/// What is submitted for a bundle that has a proof.
pub open spec fn submission_outcome(
    tables: Tables,
    round_id: Text,
    wallet_id: Text,
    bundle_index: u32,
) -> Result<SubmissionModel, Fault> {
    let key = bundle_key(round_id, wallet_id, bundle_index as int);
    let bundle = tables.bundles[key];
    if !tables.bundles.contains_key(key) || !is_proven(tables.proofs, key) {
        Err(
            bundle_unread(
                "failed to load delegation submission data for"@,
                round_id,
                bundle_index,
            ),
        )
    } else {
        match stored_words(bytes_or_empty(bundle.gov_nullifiers_blob), "gov_nullifiers_blob"@) {
            Err(fault) => Err(fault),
            Ok(gov_nullifiers) => Ok(
                SubmissionModel {
                    proof: tables.proofs[key].proof,
                    rk: bytes_or_empty(bundle.rk),
                    nf_signed: bytes_or_empty(bundle.nf_signed),
                    cmx_new: bytes_or_empty(bundle.cmx_new),
                    gov_comm: bytes_or_empty(bundle.gov_comm),
                    gov_nullifiers,
                    alpha: bytes_or_empty(bundle.alpha),
                    vote_round_id: round_id,
                    tx1_effects: bytes_or_empty(bundle.tx1_effects),
                },
            ),
        }
    }
}

/// Loads what is submitted to the chain for a delegation.
///
/// `effects_valid` is the verdict on the stored TX1 effects.
pub fn load_delegation_submission_data(
    tables: &VotingTables,
    round_id: &str,
    wallet_id: &str,
    bundle_index: u32,
    effects_valid: Result<(), VotingError>,
) -> (r: Result<DelegationDbFields, VotingError>)
    ensures
        answers(
            r,
            checked(
                submission_outcome(tables@, round_id@, wallet_id@, bundle_index),
                effects_valid,
            ),
        ),
{
    let what = "failed to load delegation submission data for";
    let bundle = match tables.bundle(round_id, wallet_id, bundle_index) {
        Some(bundle) => bundle,
        None => return Err(bundle_unread_error(what, round_id, bundle_index)),
    };
    let proof = match tables.proofs.find(
        &OfBundle { round_id, wallet_id, bundle_index: bundle_index as i64 },
    ) {
        Some(proof) => proof,
        None => return Err(bundle_unread_error(what, round_id, bundle_index)),
    };
    if proof.success != 1 {
        return Err(bundle_unread_error(what, round_id, bundle_index));
    }
    let gov_nullifiers = match decode_words(
        copy_or_empty(&bundle.gov_nullifiers_blob).as_slice(),
        "gov_nullifiers_blob",
    ) {
        Ok(gov_nullifiers) => gov_nullifiers,
        Err(error) => return Err(error),
    };
    if let Err(error) = effects_valid {
        return Err(error);
    }
    Ok(
        DelegationDbFields {
            proof: copy_bytes(proof.proof.as_slice()),
            rk: copy_or_empty(&bundle.rk),
            nf_signed: copy_or_empty(&bundle.nf_signed),
            cmx_new: copy_or_empty(&bundle.cmx_new),
            gov_comm: copy_or_empty(&bundle.gov_comm),
            gov_nullifiers,
            alpha: copy_or_empty(&bundle.alpha),
            vote_round_id: bundle.round_id.clone(),
            tx1_effects: copy_or_empty(&bundle.tx1_effects),
        },
    )
}

} // verus!
