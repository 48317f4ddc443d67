//! The rows of the voting tables.
//!
//! A row holds its columns as they are stored: numbers are signed 64-bit
//! integers, lists of equally long byte strings are flat blobs, and a column
//! that may be empty is an `Option`.

use vstd::prelude::*;

use crate::bytes::bytes_eq;
use crate::text::str_eq;
use crate::types::{Bytes, Modeled, Text};
use super::table::{Filter, Row};

verus! {

/// Identifies a round of a wallet.
#[verifier::ext_equal]
pub struct RoundKey {
    pub round_id: Text,
    pub wallet_id: Text,
}

/// Identifies a bundle of a round.
#[verifier::ext_equal]
pub struct BundleKey {
    pub round: RoundKey,
    pub bundle_index: i64,
}

/// Identifies a vote of a bundle.
#[verifier::ext_equal]
pub struct VoteKey {
    pub bundle: BundleKey,
    pub proposal_id: i64,
}

/// Identifies a share of a vote.
#[verifier::ext_equal]
pub struct ShareKey {
    pub vote: VoteKey,
    pub share_index: i64,
}

/// Identifies a witness of a bundle.
#[verifier::ext_equal]
pub struct WitnessKey {
    pub bundle: BundleKey,
    pub note_position: i64,
}

/// Identifies a non-membership proof of a bundle.
#[verifier::ext_equal]
pub struct ImtKey {
    pub bundle: BundleKey,
    pub nullifier: Bytes,
}

/// Identifies a ballot intent of a round.
#[verifier::ext_equal]
pub struct IntentKey {
    pub round: RoundKey,
    pub proposal_id: i64,
}

/// A row that belongs to a round.
pub trait InRound: Row {
    spec fn round_of(key: Self::Key) -> RoundKey;

    fn is_in_round(&self, round_id: &str, wallet_id: &str) -> (is_in: bool)
        ensures
            is_in == (Self::round_of(self.key()) == round_key(round_id@, wallet_id@)),
    ;
}

/// A row that belongs to a bundle.
pub trait InBundle: InRound {
    spec fn bundle_of(key: Self::Key) -> BundleKey;

    /// The round of the row is the round of its bundle.
    proof fn round_of_bundle(key: Self::Key)
        ensures
            Self::bundle_of(key).round == Self::round_of(key),
    ;

    fn index_of_bundle(&self) -> (index: i64)
        ensures
            index == Self::bundle_of(self.key()).bundle_index,
    ;
}

/// A row that belongs to a vote.
pub trait InVote: InBundle {
    spec fn vote_of(key: Self::Key) -> VoteKey;

    /// The bundle of the row is the bundle of its vote.
    proof fn bundle_of_vote(key: Self::Key)
        ensures
            Self::vote_of(key).bundle == Self::bundle_of(key),
    ;

    fn id_of_proposal(&self) -> (id: i64)
        ensures
            id == Self::vote_of(self.key()).proposal_id,
    ;
}

/// The key of a round.
pub open spec fn round_key(round_id: Text, wallet_id: Text) -> RoundKey {
    RoundKey { round_id, wallet_id }
}

/// The key of a bundle.
pub open spec fn bundle_key(round_id: Text, wallet_id: Text, bundle_index: int) -> BundleKey {
    BundleKey { round: round_key(round_id, wallet_id), bundle_index: bundle_index as i64 }
}

/// The key of a vote.
pub open spec fn vote_key(
    round_id: Text,
    wallet_id: Text,
    bundle_index: int,
    proposal_id: int,
) -> VoteKey {
    VoteKey {
        bundle: bundle_key(round_id, wallet_id, bundle_index),
        proposal_id: proposal_id as i64,
    }
}

/// The key of a share.
pub open spec fn share_key(
    round_id: Text,
    wallet_id: Text,
    bundle_index: int,
    proposal_id: int,
    share_index: int,
) -> ShareKey {
    ShareKey {
        vote: vote_key(round_id, wallet_id, bundle_index, proposal_id),
        share_index: share_index as i64,
    }
}

/// The key of a ballot intent.
pub open spec fn intent_key(round_id: Text, wallet_id: Text, proposal_id: int) -> IntentKey {
    IntentKey { round: round_key(round_id, wallet_id), proposal_id: proposal_id as i64 }
}

/// A round of a wallet.
#[derive(Clone, Debug, PartialEq, Eq)]
pub struct RoundRow {
    pub round_id: String,
    pub wallet_id: String,
    pub network: String,
    pub snapshot_height: i64,
    pub ea_pk: Vec<u8>,
    pub nc_root: Vec<u8>,
    pub nullifier_imt_root: Vec<u8>,
    pub session_json: Option<String>,
    pub phase: i64,
    pub created_at: i64,
}

/// The columns of a [`RoundRow`] outside its key.
#[verifier::ext_equal]
pub struct RoundColumns {
    pub network: Text,
    pub snapshot_height: i64,
    pub ea_pk: Bytes,
    pub nc_root: Bytes,
    pub nullifier_imt_root: Bytes,
    pub session_json: Option<Text>,
    pub phase: i64,
    pub created_at: i64,
}

impl Row for RoundRow {
    type Key = RoundKey;

    type Data = RoundColumns;

    open spec fn key(&self) -> RoundKey {
        round_key(self.round_id@, self.wallet_id@)
    }

    open spec fn data(&self) -> RoundColumns {
        RoundColumns {
            network: self.network@,
            snapshot_height: self.snapshot_height,
            ea_pk: self.ea_pk@,
            nc_root: self.nc_root@,
            nullifier_imt_root: self.nullifier_imt_root@,
            session_json: self.session_json.model(),
            phase: self.phase,
            created_at: self.created_at,
        }
    }

    fn same_key(&self, other: &Self) -> bool {
        str_eq(self.round_id.as_str(), other.round_id.as_str()) && str_eq(
            self.wallet_id.as_str(),
            other.wallet_id.as_str(),
        )
    }
}

impl InRound for RoundRow {
    open spec fn round_of(key: RoundKey) -> RoundKey {
        key
    }

    fn is_in_round(&self, round_id: &str, wallet_id: &str) -> bool {
        str_eq(self.round_id.as_str(), round_id) && str_eq(self.wallet_id.as_str(), wallet_id)
    }
}

/// A cached note commitment tree state of a round.
#[derive(Clone, Debug, PartialEq, Eq)]
pub struct TreeStateRow {
    pub round_id: String,
    pub wallet_id: String,
    pub snapshot_height: i64,
    pub tree_state: Vec<u8>,
}

/// The columns of a [`TreeStateRow`] outside its key.
#[verifier::ext_equal]
pub struct TreeStateColumns {
    pub snapshot_height: i64,
    pub tree_state: Bytes,
}

impl Row for TreeStateRow {
    type Key = RoundKey;

    type Data = TreeStateColumns;

    open spec fn key(&self) -> RoundKey {
        round_key(self.round_id@, self.wallet_id@)
    }

    open spec fn data(&self) -> TreeStateColumns {
        TreeStateColumns {
            snapshot_height: self.snapshot_height,
            tree_state: self.tree_state@,
        }
    }

    fn same_key(&self, other: &Self) -> bool {
        str_eq(self.round_id.as_str(), other.round_id.as_str()) && str_eq(
            self.wallet_id.as_str(),
            other.wallet_id.as_str(),
        )
    }
}

impl InRound for TreeStateRow {
    open spec fn round_of(key: RoundKey) -> RoundKey {
        key
    }

    fn is_in_round(&self, round_id: &str, wallet_id: &str) -> bool {
        str_eq(self.round_id.as_str(), round_id) && str_eq(self.wallet_id.as_str(), wallet_id)
    }
}

/// A choice that a voter has made for a proposal.
#[derive(Clone, Debug, PartialEq, Eq)]
pub struct IntentRow {
    pub round_id: String,
    pub wallet_id: String,
    pub proposal_id: i64,
    pub skipped: i64,
    pub choice: Option<i64>,
}

/// The columns of a [`IntentRow`] outside its key.
#[verifier::ext_equal]
pub struct IntentColumns {
    pub skipped: i64,
    pub choice: Option<i64>,
}

impl Row for IntentRow {
    type Key = IntentKey;

    type Data = IntentColumns;

    open spec fn key(&self) -> IntentKey {
        intent_key(self.round_id@, self.wallet_id@, self.proposal_id as int)
    }

    open spec fn data(&self) -> IntentColumns {
        IntentColumns {
            skipped: self.skipped,
            choice: self.choice,
        }
    }

    fn same_key(&self, other: &Self) -> bool {
        str_eq(self.round_id.as_str(), other.round_id.as_str()) && str_eq(
            self.wallet_id.as_str(),
            other.wallet_id.as_str(),
        ) && self.proposal_id == other.proposal_id
    }
}

impl InRound for IntentRow {
    open spec fn round_of(key: IntentKey) -> RoundKey {
        key.round
    }

    fn is_in_round(&self, round_id: &str, wallet_id: &str) -> bool {
        str_eq(self.round_id.as_str(), round_id) && str_eq(self.wallet_id.as_str(), wallet_id)
    }
}

/// A delegation bundle of a round.
#[derive(Clone, Debug, PartialEq, Eq)]
pub struct BundleRow {
    pub round_id: String,
    pub wallet_id: String,
    pub bundle_index: i64,
    pub note_positions_blob: Option<Vec<u8>>,
    pub note_identity_hashes_blob: Option<Vec<u8>>,
    pub van_comm_rand: Option<Vec<u8>>,
    pub dummy_nullifiers: Option<Vec<u8>>,
    pub rho_signed: Option<Vec<u8>>,
    pub padded_note_data: Option<Vec<u8>>,
    pub nf_signed: Option<Vec<u8>>,
    pub cmx_new: Option<Vec<u8>>,
    pub alpha: Option<Vec<u8>>,
    pub rseed_signed: Option<Vec<u8>>,
    pub rseed_output: Option<Vec<u8>>,
    pub gov_comm: Option<Vec<u8>>,
    pub total_note_value: Option<i64>,
    pub address_index: Option<i64>,
    pub rk: Option<Vec<u8>>,
    pub gov_nullifiers_blob: Option<Vec<u8>>,
    pub padded_note_secrets: Option<Vec<u8>>,
    pub pczt_sighash: Option<Vec<u8>>,
    pub tx1_effects: Option<Vec<u8>>,
    pub van_leaf_position: Option<i64>,
    pub delegation_tx_hash: Option<String>,
}

/// The columns of a [`BundleRow`] outside its key.
#[verifier::ext_equal]
pub struct BundleColumns {
    pub note_positions_blob: Option<Bytes>,
    pub note_identity_hashes_blob: Option<Bytes>,
    pub van_comm_rand: Option<Bytes>,
    pub dummy_nullifiers: Option<Bytes>,
    pub rho_signed: Option<Bytes>,
    pub padded_note_data: Option<Bytes>,
    pub nf_signed: Option<Bytes>,
    pub cmx_new: Option<Bytes>,
    pub alpha: Option<Bytes>,
    pub rseed_signed: Option<Bytes>,
    pub rseed_output: Option<Bytes>,
    pub gov_comm: Option<Bytes>,
    pub total_note_value: Option<i64>,
    pub address_index: Option<i64>,
    pub rk: Option<Bytes>,
    pub gov_nullifiers_blob: Option<Bytes>,
    pub padded_note_secrets: Option<Bytes>,
    pub pczt_sighash: Option<Bytes>,
    pub tx1_effects: Option<Bytes>,
    pub van_leaf_position: Option<i64>,
    pub delegation_tx_hash: Option<Text>,
}

impl Row for BundleRow {
    type Key = BundleKey;

    type Data = BundleColumns;

    open spec fn key(&self) -> BundleKey {
        bundle_key(self.round_id@, self.wallet_id@, self.bundle_index as int)
    }

    open spec fn data(&self) -> BundleColumns {
        BundleColumns {
            note_positions_blob: self.note_positions_blob.model(),
            note_identity_hashes_blob: self.note_identity_hashes_blob.model(),
            van_comm_rand: self.van_comm_rand.model(),
            dummy_nullifiers: self.dummy_nullifiers.model(),
            rho_signed: self.rho_signed.model(),
            padded_note_data: self.padded_note_data.model(),
            nf_signed: self.nf_signed.model(),
            cmx_new: self.cmx_new.model(),
            alpha: self.alpha.model(),
            rseed_signed: self.rseed_signed.model(),
            rseed_output: self.rseed_output.model(),
            gov_comm: self.gov_comm.model(),
            total_note_value: self.total_note_value,
            address_index: self.address_index,
            rk: self.rk.model(),
            gov_nullifiers_blob: self.gov_nullifiers_blob.model(),
            padded_note_secrets: self.padded_note_secrets.model(),
            pczt_sighash: self.pczt_sighash.model(),
            tx1_effects: self.tx1_effects.model(),
            van_leaf_position: self.van_leaf_position,
            delegation_tx_hash: self.delegation_tx_hash.model(),
        }
    }

    fn same_key(&self, other: &Self) -> bool {
        str_eq(self.round_id.as_str(), other.round_id.as_str()) && str_eq(
            self.wallet_id.as_str(),
            other.wallet_id.as_str(),
        ) && self.bundle_index == other.bundle_index
    }
}

impl InRound for BundleRow {
    open spec fn round_of(key: BundleKey) -> RoundKey {
        key.round
    }

    fn is_in_round(&self, round_id: &str, wallet_id: &str) -> bool {
        str_eq(self.round_id.as_str(), round_id) && str_eq(self.wallet_id.as_str(), wallet_id)
    }
}

impl InBundle for BundleRow {
    open spec fn bundle_of(key: BundleKey) -> BundleKey {
        key
    }

    proof fn round_of_bundle(key: BundleKey) {
    }

    fn index_of_bundle(&self) -> i64 {
        self.bundle_index
    }
}

/// A delegation proof of a bundle.
#[derive(Clone, Debug, PartialEq, Eq)]
pub struct ProofRow {
    pub round_id: String,
    pub wallet_id: String,
    pub bundle_index: i64,
    pub proof: Vec<u8>,
    pub success: i64,
    pub created_at: i64,
}

/// The columns of a [`ProofRow`] outside its key.
#[verifier::ext_equal]
pub struct ProofColumns {
    pub proof: Bytes,
    pub success: i64,
    pub created_at: i64,
}

impl Row for ProofRow {
    type Key = BundleKey;

    type Data = ProofColumns;

    open spec fn key(&self) -> BundleKey {
        bundle_key(self.round_id@, self.wallet_id@, self.bundle_index as int)
    }

    open spec fn data(&self) -> ProofColumns {
        ProofColumns {
            proof: self.proof@,
            success: self.success,
            created_at: self.created_at,
        }
    }

    fn same_key(&self, other: &Self) -> bool {
        str_eq(self.round_id.as_str(), other.round_id.as_str()) && str_eq(
            self.wallet_id.as_str(),
            other.wallet_id.as_str(),
        ) && self.bundle_index == other.bundle_index
    }
}

impl InRound for ProofRow {
    open spec fn round_of(key: BundleKey) -> RoundKey {
        key.round
    }

    fn is_in_round(&self, round_id: &str, wallet_id: &str) -> bool {
        str_eq(self.round_id.as_str(), round_id) && str_eq(self.wallet_id.as_str(), wallet_id)
    }
}

impl InBundle for ProofRow {
    open spec fn bundle_of(key: BundleKey) -> BundleKey {
        key
    }

    proof fn round_of_bundle(key: BundleKey) {
    }

    fn index_of_bundle(&self) -> i64 {
        self.bundle_index
    }
}

/// A Keystone signature of a bundle.
#[derive(Clone, Debug, PartialEq, Eq)]
pub struct KeystoneRow {
    pub round_id: String,
    pub wallet_id: String,
    pub bundle_index: i64,
    pub sig: Vec<u8>,
    pub sighash: Vec<u8>,
    pub rk: Vec<u8>,
    pub created_at: i64,
}

/// The columns of a [`KeystoneRow`] outside its key.
#[verifier::ext_equal]
pub struct KeystoneColumns {
    pub sig: Bytes,
    pub sighash: Bytes,
    pub rk: Bytes,
    pub created_at: i64,
}

impl Row for KeystoneRow {
    type Key = BundleKey;

    type Data = KeystoneColumns;

    open spec fn key(&self) -> BundleKey {
        bundle_key(self.round_id@, self.wallet_id@, self.bundle_index as int)
    }

    open spec fn data(&self) -> KeystoneColumns {
        KeystoneColumns {
            sig: self.sig@,
            sighash: self.sighash@,
            rk: self.rk@,
            created_at: self.created_at,
        }
    }

    fn same_key(&self, other: &Self) -> bool {
        str_eq(self.round_id.as_str(), other.round_id.as_str()) && str_eq(
            self.wallet_id.as_str(),
            other.wallet_id.as_str(),
        ) && self.bundle_index == other.bundle_index
    }
}

impl InRound for KeystoneRow {
    open spec fn round_of(key: BundleKey) -> RoundKey {
        key.round
    }

    fn is_in_round(&self, round_id: &str, wallet_id: &str) -> bool {
        str_eq(self.round_id.as_str(), round_id) && str_eq(self.wallet_id.as_str(), wallet_id)
    }
}

impl InBundle for KeystoneRow {
    open spec fn bundle_of(key: BundleKey) -> BundleKey {
        key
    }

    proof fn round_of_bundle(key: BundleKey) {
    }

    fn index_of_bundle(&self) -> i64 {
        self.bundle_index
    }
}

/// A Merkle inclusion proof of a note of a bundle.
#[derive(Clone, Debug, PartialEq, Eq)]
pub struct WitnessRow {
    pub round_id: String,
    pub wallet_id: String,
    pub bundle_index: i64,
    pub note_position: i64,
    pub note_commitment: Vec<u8>,
    pub root: Vec<u8>,
    pub auth_path: Vec<u8>,
    pub created_at: i64,
}

/// The columns of a [`WitnessRow`] outside its key.
#[verifier::ext_equal]
pub struct WitnessColumns {
    pub note_commitment: Bytes,
    pub root: Bytes,
    pub auth_path: Bytes,
    pub created_at: i64,
}

impl Row for WitnessRow {
    type Key = WitnessKey;

    type Data = WitnessColumns;

    open spec fn key(&self) -> WitnessKey {
        WitnessKey {
            bundle: bundle_key(self.round_id@, self.wallet_id@, self.bundle_index as int),
            note_position: self.note_position,
        }
    }

    open spec fn data(&self) -> WitnessColumns {
        WitnessColumns {
            note_commitment: self.note_commitment@,
            root: self.root@,
            auth_path: self.auth_path@,
            created_at: self.created_at,
        }
    }

    fn same_key(&self, other: &Self) -> bool {
        str_eq(self.round_id.as_str(), other.round_id.as_str()) && str_eq(
            self.wallet_id.as_str(),
            other.wallet_id.as_str(),
        ) && self.bundle_index == other.bundle_index && self.note_position == other.note_position
    }
}

impl InRound for WitnessRow {
    open spec fn round_of(key: WitnessKey) -> RoundKey {
        key.bundle.round
    }

    fn is_in_round(&self, round_id: &str, wallet_id: &str) -> bool {
        str_eq(self.round_id.as_str(), round_id) && str_eq(self.wallet_id.as_str(), wallet_id)
    }
}

impl InBundle for WitnessRow {
    open spec fn bundle_of(key: WitnessKey) -> BundleKey {
        key.bundle
    }

    proof fn round_of_bundle(key: WitnessKey) {
    }

    fn index_of_bundle(&self) -> i64 {
        self.bundle_index
    }
}

/// A non-membership proof of a nullifier of a bundle.
#[derive(Clone, Debug, PartialEq, Eq)]
pub struct ImtProofRow {
    pub round_id: String,
    pub wallet_id: String,
    pub bundle_index: i64,
    pub nullifier: Vec<u8>,
    pub root: Vec<u8>,
    pub nf_bounds: Vec<u8>,
    pub leaf_pos: i64,
    pub path: Vec<u8>,
    pub created_at: i64,
}

/// The columns of a [`ImtProofRow`] outside its key.
#[verifier::ext_equal]
pub struct ImtColumns {
    pub root: Bytes,
    pub nf_bounds: Bytes,
    pub leaf_pos: i64,
    pub path: Bytes,
    pub created_at: i64,
}

impl Row for ImtProofRow {
    type Key = ImtKey;

    type Data = ImtColumns;

    open spec fn key(&self) -> ImtKey {
        ImtKey {
            bundle: bundle_key(self.round_id@, self.wallet_id@, self.bundle_index as int),
            nullifier: self.nullifier@,
        }
    }

    open spec fn data(&self) -> ImtColumns {
        ImtColumns {
            root: self.root@,
            nf_bounds: self.nf_bounds@,
            leaf_pos: self.leaf_pos,
            path: self.path@,
            created_at: self.created_at,
        }
    }

    fn same_key(&self, other: &Self) -> bool {
        str_eq(self.round_id.as_str(), other.round_id.as_str()) && str_eq(
            self.wallet_id.as_str(),
            other.wallet_id.as_str(),
        ) && self.bundle_index == other.bundle_index && bytes_eq(
            self.nullifier.as_slice(),
            other.nullifier.as_slice(),
        )
    }
}

impl InRound for ImtProofRow {
    open spec fn round_of(key: ImtKey) -> RoundKey {
        key.bundle.round
    }

    fn is_in_round(&self, round_id: &str, wallet_id: &str) -> bool {
        str_eq(self.round_id.as_str(), round_id) && str_eq(self.wallet_id.as_str(), wallet_id)
    }
}

impl InBundle for ImtProofRow {
    open spec fn bundle_of(key: ImtKey) -> BundleKey {
        key.bundle
    }

    proof fn round_of_bundle(key: ImtKey) {
    }

    fn index_of_bundle(&self) -> i64 {
        self.bundle_index
    }
}

/// A vote of a bundle on a proposal.
#[derive(Clone, Debug, PartialEq, Eq)]
pub struct VoteRow {
    pub round_id: String,
    pub wallet_id: String,
    pub bundle_index: i64,
    pub proposal_id: i64,
    pub choice: i64,
    pub commitment: Option<Vec<u8>>,
    pub tx_hash: Option<String>,
    pub commitment_bundle_json: Option<String>,
    pub vc_tree_position: Option<i64>,
    pub created_at: i64,
}

/// The columns of a [`VoteRow`] outside its key.
#[verifier::ext_equal]
pub struct VoteColumns {
    pub choice: i64,
    pub commitment: Option<Bytes>,
    pub tx_hash: Option<Text>,
    pub commitment_bundle_json: Option<Text>,
    pub vc_tree_position: Option<i64>,
    pub created_at: i64,
}

impl Row for VoteRow {
    type Key = VoteKey;

    type Data = VoteColumns;

    open spec fn key(&self) -> VoteKey {
        vote_key(
            self.round_id@,
            self.wallet_id@,
            self.bundle_index as int,
            self.proposal_id as int,
        )
    }

    open spec fn data(&self) -> VoteColumns {
        VoteColumns {
            choice: self.choice,
            commitment: self.commitment.model(),
            tx_hash: self.tx_hash.model(),
            commitment_bundle_json: self.commitment_bundle_json.model(),
            vc_tree_position: self.vc_tree_position,
            created_at: self.created_at,
        }
    }

    fn same_key(&self, other: &Self) -> bool {
        str_eq(self.round_id.as_str(), other.round_id.as_str()) && str_eq(
            self.wallet_id.as_str(),
            other.wallet_id.as_str(),
        ) && self.bundle_index == other.bundle_index && self.proposal_id == other.proposal_id
    }
}

impl InRound for VoteRow {
    open spec fn round_of(key: VoteKey) -> RoundKey {
        key.bundle.round
    }

    fn is_in_round(&self, round_id: &str, wallet_id: &str) -> bool {
        str_eq(self.round_id.as_str(), round_id) && str_eq(self.wallet_id.as_str(), wallet_id)
    }
}

impl InBundle for VoteRow {
    open spec fn bundle_of(key: VoteKey) -> BundleKey {
        key.bundle
    }

    proof fn round_of_bundle(key: VoteKey) {
    }

    fn index_of_bundle(&self) -> i64 {
        self.bundle_index
    }
}

impl InVote for VoteRow {
    open spec fn vote_of(key: VoteKey) -> VoteKey {
        key
    }

    proof fn bundle_of_vote(key: VoteKey) {
    }

    fn id_of_proposal(&self) -> i64 {
        self.proposal_id
    }
}

/// A share of a vote that helper servers submit.
#[derive(Clone, Debug, PartialEq, Eq)]
pub struct ShareRow {
    pub round_id: String,
    pub wallet_id: String,
    pub bundle_index: i64,
    pub proposal_id: i64,
    pub share_index: i64,
    pub sent_to_urls: String,
    pub nullifier: Vec<u8>,
    pub confirmed: i64,
    pub submit_at: i64,
    pub created_at: i64,
}

/// The columns of a [`ShareRow`] outside its key.
#[verifier::ext_equal]
pub struct ShareColumns {
    pub sent_to_urls: Text,
    pub nullifier: Bytes,
    pub confirmed: i64,
    pub submit_at: i64,
    pub created_at: i64,
}

impl Row for ShareRow {
    type Key = ShareKey;

    type Data = ShareColumns;

    open spec fn key(&self) -> ShareKey {
        share_key(
            self.round_id@,
            self.wallet_id@,
            self.bundle_index as int,
            self.proposal_id as int,
            self.share_index as int,
        )
    }

    open spec fn data(&self) -> ShareColumns {
        ShareColumns {
            sent_to_urls: self.sent_to_urls@,
            nullifier: self.nullifier@,
            confirmed: self.confirmed,
            submit_at: self.submit_at,
            created_at: self.created_at,
        }
    }

    fn same_key(&self, other: &Self) -> bool {
        str_eq(self.round_id.as_str(), other.round_id.as_str()) && str_eq(
            self.wallet_id.as_str(),
            other.wallet_id.as_str(),
        ) && self.bundle_index == other.bundle_index && self.proposal_id == other.proposal_id && self.share_index == other.share_index
    }
}

impl InRound for ShareRow {
    open spec fn round_of(key: ShareKey) -> RoundKey {
        key.vote.bundle.round
    }

    fn is_in_round(&self, round_id: &str, wallet_id: &str) -> bool {
        str_eq(self.round_id.as_str(), round_id) && str_eq(self.wallet_id.as_str(), wallet_id)
    }
}

impl InBundle for ShareRow {
    open spec fn bundle_of(key: ShareKey) -> BundleKey {
        key.vote.bundle
    }

    proof fn round_of_bundle(key: ShareKey) {
    }

    fn index_of_bundle(&self) -> i64 {
        self.bundle_index
    }
}

impl InVote for ShareRow {
    open spec fn vote_of(key: ShareKey) -> VoteKey {
        key.vote
    }

    proof fn bundle_of_vote(key: ShareKey) {
    }

    fn id_of_proposal(&self) -> i64 {
        self.proposal_id
    }
}

/// The rows of one round.
pub struct OfRound<'a> {
    pub round_id: &'a str,
    pub wallet_id: &'a str,
}

impl<'a, R: InRound> Filter<R> for OfRound<'a> {
    open spec fn accepts(&self, key: R::Key, data: R::Data) -> bool {
        R::round_of(key) == round_key(self.round_id@, self.wallet_id@)
    }

    fn test(&self, row: &R) -> bool {
        row.is_in_round(self.round_id, self.wallet_id)
    }
}

/// The rows of one wallet.
pub struct OfWallet<'a> {
    pub wallet_id: &'a str,
}

impl<'a> Filter<RoundRow> for OfWallet<'a> {
    open spec fn accepts(&self, key: RoundKey, data: RoundColumns) -> bool {
        key.wallet_id == self.wallet_id@
    }

    fn test(&self, row: &RoundRow) -> bool {
        str_eq(row.wallet_id.as_str(), self.wallet_id)
    }
}

/// The rows of one bundle.
pub struct OfBundle<'a> {
    pub round_id: &'a str,
    pub wallet_id: &'a str,
    pub bundle_index: i64,
}

impl<'a, R: InBundle> Filter<R> for OfBundle<'a> {
    open spec fn accepts(&self, key: R::Key, data: R::Data) -> bool {
        R::bundle_of(key) == bundle_key(self.round_id@, self.wallet_id@, self.bundle_index as int)
    }

    fn test(&self, row: &R) -> bool {
        let same_index = row.index_of_bundle() == self.bundle_index;
        let same_round = row.is_in_round(self.round_id, self.wallet_id);
        proof {
            R::round_of_bundle(row.key());
            let bundle = R::bundle_of(row.key());
            let wanted = bundle_key(self.round_id@, self.wallet_id@, self.bundle_index as int);
            assert(wanted.bundle_index == self.bundle_index);
            assert(same_index == (bundle.bundle_index == wanted.bundle_index));
            assert(same_round == (bundle.round == wanted.round));
            assert((bundle == wanted) == (same_index && same_round));
            assert(Filter::<R>::accepts(self, row.key(), row.data()) == (bundle == wanted));
        }
        same_index && same_round
    }
}

/// The rows of the bundles of a round from one bundle on.
pub struct FromBundle<'a> {
    pub round_id: &'a str,
    pub wallet_id: &'a str,
    pub from_index: i64,
}

impl<'a, R: InBundle> Filter<R> for FromBundle<'a> {
    open spec fn accepts(&self, key: R::Key, data: R::Data) -> bool {
        R::bundle_of(key).round == round_key(self.round_id@, self.wallet_id@) && R::bundle_of(
            key,
        ).bundle_index >= self.from_index
    }

    fn test(&self, row: &R) -> bool {
        proof {
            R::round_of_bundle(row.key());
        }
        row.index_of_bundle() >= self.from_index && row.is_in_round(self.round_id, self.wallet_id)
    }
}

/// The rows of one vote.
pub struct OfVote<'a> {
    pub round_id: &'a str,
    pub wallet_id: &'a str,
    pub bundle_index: i64,
    pub proposal_id: i64,
}

impl<'a, R: InVote> Filter<R> for OfVote<'a> {
    open spec fn accepts(&self, key: R::Key, data: R::Data) -> bool {
        R::vote_of(key) == vote_key(
            self.round_id@,
            self.wallet_id@,
            self.bundle_index as int,
            self.proposal_id as int,
        )
    }

    fn test(&self, row: &R) -> bool {
        proof {
            R::bundle_of_vote(row.key());
            R::round_of_bundle(row.key());
            let vote = R::vote_of(row.key());
            assert(vote == VoteKey {
                bundle: BundleKey {
                    round: vote.bundle.round,
                    bundle_index: vote.bundle.bundle_index,
                },
                proposal_id: vote.proposal_id,
            });
        }
        row.id_of_proposal() == self.proposal_id && row.index_of_bundle() == self.bundle_index
            && row.is_in_round(self.round_id, self.wallet_id)
    }
}

/// One share.
pub struct OfShare<'a> {
    pub round_id: &'a str,
    pub wallet_id: &'a str,
    pub bundle_index: i64,
    pub proposal_id: i64,
    pub share_index: i64,
}

impl<'a> Filter<ShareRow> for OfShare<'a> {
    open spec fn accepts(&self, key: ShareKey, data: ShareColumns) -> bool {
        key == share_key(
            self.round_id@,
            self.wallet_id@,
            self.bundle_index as int,
            self.proposal_id as int,
            self.share_index as int,
        )
    }

    fn test(&self, row: &ShareRow) -> bool {
        row.share_index == self.share_index && row.proposal_id == self.proposal_id
            && row.bundle_index == self.bundle_index && row.is_in_round(
            self.round_id,
            self.wallet_id,
        )
    }
}

/// One non-membership proof.
pub struct OfNullifier<'a> {
    pub round_id: &'a str,
    pub wallet_id: &'a str,
    pub bundle_index: i64,
    pub nullifier: &'a [u8],
}

impl<'a> Filter<ImtProofRow> for OfNullifier<'a> {
    open spec fn accepts(&self, key: ImtKey, data: ImtColumns) -> bool {
        key == ImtKey {
            bundle: bundle_key(self.round_id@, self.wallet_id@, self.bundle_index as int),
            nullifier: self.nullifier@,
        }
    }

    fn test(&self, row: &ImtProofRow) -> bool {
        row.bundle_index == self.bundle_index && bytes_eq(
            row.nullifier.as_slice(),
            self.nullifier,
        ) && row.is_in_round(self.round_id, self.wallet_id)
    }
}

/// The intent for one proposal.
pub struct OfProposal<'a> {
    pub round_id: &'a str,
    pub wallet_id: &'a str,
    pub proposal_id: i64,
}

impl<'a> Filter<IntentRow> for OfProposal<'a> {
    open spec fn accepts(&self, key: IntentKey, data: IntentColumns) -> bool {
        key == intent_key(self.round_id@, self.wallet_id@, self.proposal_id as int)
    }

    fn test(&self, row: &IntentRow) -> bool {
        row.proposal_id == self.proposal_id && row.is_in_round(self.round_id, self.wallet_id)
    }
}

} // verus!
