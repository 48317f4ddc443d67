//! Delegations on chain: their transactions, and what voting reads of them.

use vstd::prelude::*;

use crate::storage::faults::{bundle_unread, bundle_unread_error, no_row, no_row_text};
use crate::storage::field::{field_from_bytes, stored_field, FieldElement};
use crate::storage::rows::{
    bundle_key, round_key, BundleColumns, BundleKey, BundleRow, OfBundle, OfRound, RoundKey,
    VoteColumns, VoteKey, VoteRow,
};
use crate::storage::table::{accepted, keys_of, Filter, Row};
use crate::storage::tables::{ran, Tables, VotingTables};
use crate::text::{copy_optional_text, decimal, str_eq};
use crate::types::{
    all_or_first, answers, lemma_next_item, Bytes, Fault, Message, Modeled, Text, VotingError,
};
use super::bundles::{bytes_or_empty, copy_or_empty, with_bundle, ByBundle};

verus! {

/// What the proof of a vote needs of a delegation.
#[derive(Clone, Debug, PartialEq, Eq)]
pub struct Zkp2DelegationData {
    pub gov_comm_rand: Vec<u8>,
    pub total_note_value: u64,
    pub address_index: u32,
    pub ea_pk: Vec<u8>,
    pub voting_round_id: String,
    /// Bit `i` is set if no vote on proposal `i` has been submitted. Proposals
    /// are counted from 1, so bit 0 stays set.
    pub proposal_authority: u64,
}

/// The meaning of [`Zkp2DelegationData`]; the authority is the set of its bits.
#[verifier::ext_equal]
pub struct Zkp2Model {
    pub gov_comm_rand: Bytes,
    pub total_note_value: u64,
    pub address_index: u32,
    pub ea_pk: Bytes,
    pub voting_round_id: Text,
    pub proposal_authority: Set<u64>,
}

/// The bit of a mask is set.
pub open spec fn has_bit(mask: u64, bit: u64) -> bool {
    mask & (1u64 << bit) != 0
}

/// The bits of a mask that are set.
pub open spec fn bits_of(mask: u64) -> Set<u64> {
    Set::new(|bit: u64| bit < 64 && has_bit(mask, bit))
}

impl Modeled for Zkp2DelegationData {
    type Model = Zkp2Model;

    open spec fn model(&self) -> Zkp2Model {
        Zkp2Model {
            gov_comm_rand: self.gov_comm_rand@,
            total_note_value: self.total_note_value,
            address_index: self.address_index,
            ea_pk: self.ea_pk@,
            voting_round_id: self.voting_round_id@,
            proposal_authority: bits_of(self.proposal_authority),
        }
    }
}

/// A vote of a bundle on a proposal has been submitted.
pub open spec fn has_submitted(tables: Tables, bundle: BundleKey, proposal_id: int) -> bool {
    let key = VoteKey { bundle, proposal_id: proposal_id as i64 };
    tables.votes.contains_key(key) && tables.votes[key].tx_hash is Some
}

/// The proposals that a bundle has submitted votes on are numbered below 64.
pub open spec fn submitted_proposals_fit(tables: Tables, bundle: BundleKey) -> bool {
    forall|key: VoteKey| #[trigger]
        tables.votes.contains_key(key) && key.bundle == bundle && tables.votes[key].tx_hash is Some
            ==> 0 <= key.proposal_id < 64
}

/// The proposals that a bundle may still vote on, as numbers below 16.
pub open spec fn authority_of(tables: Tables, bundle: BundleKey) -> Set<u64> {
    Set::new(|bit: u64| bit < 16 && !has_submitted(tables, bundle, bit as int))
}

/// A number that may be empty; an empty one is read as zero.
pub open spec fn number_or_zero(column: Option<i64>) -> i64 {
    match column {
        Some(n) => n,
        None => 0,
    }
}

/// What the proof of a vote needs of the delegation of a bundle.
pub open spec fn zkp2_outcome(
    tables: Tables,
    round_id: Text,
    wallet_id: Text,
    bundle_index: u32,
) -> Result<Zkp2Model, Fault> {
    let key = bundle_key(round_id, wallet_id, bundle_index as int);
    if !tables.bundles.contains_key(key) || !tables.rounds.contains_key(key.round) {
        Err(bundle_unread("failed to load ZKP2 inputs for"@, round_id, bundle_index))
    } else {
        Ok(
            Zkp2Model {
                gov_comm_rand: bytes_or_empty(tables.bundles[key].van_comm_rand),
                total_note_value: number_or_zero(tables.bundles[key].total_note_value) as u64,
                address_index: number_or_zero(tables.bundles[key].address_index) as u32,
                ea_pk: tables.rounds[key.round].ea_pk,
                voting_round_id: round_id,
                proposal_authority: authority_of(tables, key),
            },
        )
    }
}

/// The submitted votes of a bundle.
struct Submitted<'a> {
    round_id: &'a str,
    wallet_id: &'a str,
    bundle_index: i64,
}

impl<'a> Filter<VoteRow> for Submitted<'a> {
    closed spec fn accepts(&self, key: VoteKey, data: VoteColumns) -> bool {
        key.bundle == bundle_key(self.round_id@, self.wallet_id@, self.bundle_index as int)
            && data.tx_hash is Some
    }

    fn test(&self, row: &VoteRow) -> bool {
        row.tx_hash.is_some() && (OfBundle {
            round_id: self.round_id,
            wallet_id: self.wallet_id,
            bundle_index: self.bundle_index,
        }).test(row)
    }
}

struct OutOfRange<'a> {
    submitted: Submitted<'a>,
}

impl<'a> Filter<VoteRow> for OutOfRange<'a> {
    closed spec fn accepts(&self, key: VoteKey, data: VoteColumns) -> bool {
        self.submitted.accepts(key, data) && !(0 <= key.proposal_id < 64)
    }

    fn test(&self, row: &VoteRow) -> bool {
        (row.proposal_id < 0 || row.proposal_id >= 64) && self.submitted.test(row)
    }
}

/// Says whether the proposals that a bundle has submitted votes on are
/// numbered below 64, as [`load_zkp2_inputs`] requires.
pub fn proposals_fit(tables: &VotingTables, round_id: &str, wallet_id: &str, bundle_index: u32) -> (
r: bool)
    ensures
        r == submitted_proposals_fit(
            tables@,
            bundle_key(round_id@, wallet_id@, bundle_index as int),
        ),
{
    let found = tables.votes.find(
        &OutOfRange {
            submitted: Submitted { round_id, wallet_id, bundle_index: bundle_index as i64 },
        },
    );
    proof {
        if let Some(row) = found {
            assert(tables@.votes.contains_key(row.key()));
        }
    }
    found.is_none()
}

/// Clearing one bit of a mask leaves the others.
proof fn lemma_clear_bit(mask: u64, cleared: u64)
    requires
        cleared < 64,
    ensures
        forall|bit: u64|
            bit < 64 ==> (#[trigger] has_bit(mask & !(1u64 << cleared), bit) <==> has_bit(mask, bit)
                && bit != cleared),
{
    assert forall|bit: u64| bit < 64 implies (#[trigger] has_bit(mask & !(1u64 << cleared), bit)
        <==> has_bit(mask, bit) && bit != cleared) by {
        assert((mask & !(1u64 << cleared)) & (1u64 << bit) != 0 <==> mask & (1u64 << bit) != 0
            && bit != cleared) by (bit_vector)
            requires
                bit < 64,
                cleared < 64,
        ;
    }
}

proof fn lemma_full_authority()
    ensures
        forall|bit: u64| bit < 64 ==> (#[trigger] has_bit(65535, bit) <==> bit < 16),
{
    assert forall|bit: u64| bit < 64 implies (#[trigger] has_bit(65535, bit) <==> bit < 16) by {
        assert(65535u64 & (1u64 << bit) != 0 <==> bit < 16) by (bit_vector)
            requires
                bit < 64,
        ;
    }
}

fn proposal_authority(
    tables: &VotingTables,
    round_id: &str,
    wallet_id: &str,
    bundle_index: u32,
) -> (authority: u64)
    requires
        submitted_proposals_fit(
            tables@,
            bundle_key(round_id@, wallet_id@, bundle_index as int),
        ),
    ensures
        bits_of(authority) == authority_of(
            tables@,
            bundle_key(round_id@, wallet_id@, bundle_index as int),
        ),
{
    let filter = Submitted { round_id, wallet_id, bundle_index: bundle_index as i64 };
    let rows = tables.votes.select(&filter, &AnyOrder);
    let ghost bundle = bundle_key(round_id@, wallet_id@, bundle_index as int);
    let ghost keys = keys_of(rows@);
    let mut authority: u64 = 65535;
    proof {
        lemma_full_authority();
    }
    let mut i: usize = 0;
    while i < rows.len()
        invariant
            i <= rows@.len(),
            keys == keys_of(rows@),
            bundle == bundle_key(round_id@, wallet_id@, bundle_index as int),
            filter == (Submitted { round_id, wallet_id, bundle_index: bundle_index as i64 }),
            submitted_proposals_fit(tables@, bundle),
            forall|j: int|
                0 <= j < rows@.len() ==> tables@.votes.contains_key((#[trigger] rows@[j]).key())
                    && tables@.votes[rows@[j].key()] == rows@[j].data() && filter.accepts(
                    rows@[j].key(),
                    rows@[j].data(),
                ),
            forall|bit: u64|
                bit < 64 ==> (#[trigger] has_bit(authority, bit) <==> bit < 16 && forall|j: int|
                    0 <= j < i ==> (#[trigger] keys[j]).proposal_id != bit),
        decreases rows.len() - i,
    {
        assert(tables@.votes.contains_key(rows@[i as int].key()));
        let proposal: u64 = rows[i].proposal_id as u64;
        let ghost before = authority;
        proof {
            lemma_clear_bit(authority, proposal);
        }
        authority = authority & !(1u64 << proposal);
        proof {
            assert(keys[i as int].proposal_id == proposal);
            assert forall|bit: u64| bit < 64 implies (#[trigger] has_bit(authority, bit) <==> bit
                < 16 && forall|j: int|
                0 <= j < i + 1 ==> (#[trigger] keys[j]).proposal_id != bit) by {
                assert(has_bit(before, bit) == has_bit(before, bit));
            }
        }
        i += 1;
    }
    proof {
        assert forall|bit: u64|
            bits_of(authority).contains(bit) == authority_of(tables@, bundle).contains(bit) by {
            if bit < 16 {
                let key = VoteKey { bundle, proposal_id: bit as i64 };
                assert(has_bit(authority, bit) == has_bit(authority, bit));
                if has_submitted(tables@, bundle, bit as int) {
                    assert(accepted::<VoteRow, Submitted>(tables@.votes, filter).contains(key));
                    assert(keys.to_set().contains(key));
                    let j = choose|j: int| 0 <= j < keys.len() && keys[j] == key;
                    assert(keys[j].proposal_id == bit);
                }
                if !has_bit(authority, bit) {
                    let j = choose|j: int|
                        0 <= j < keys.len() && (#[trigger] keys[j]).proposal_id == bit;
                    assert(rows@[j].key() == keys[j]);
                    assert(keys[j] == key);
                }
            } else if bit < 64 {
                assert(has_bit(authority, bit) == has_bit(authority, bit));
            }
        }
        assert(bits_of(authority) =~= authority_of(tables@, bundle));
    }
    authority
}

struct AnyOrder;

impl crate::storage::table::Order<VoteRow> for AnyOrder {
    closed spec fn rank(&self, key: VoteKey, data: VoteColumns) -> (int, int, int) {
        (0, 0, 0)
    }

    fn rank_of(&self, row: &VoteRow) -> (i64, i64, i64) {
        (0, 0, 0)
    }
}

/// Loads what the proof of a vote needs of the delegation of a bundle.
///
/// Each submitted vote takes the authority for its proposal away, so that the
/// next vote starts from the VAN that is in the vote commitment tree.
pub fn load_zkp2_inputs(
    tables: &VotingTables,
    round_id: &str,
    wallet_id: &str,
    bundle_index: u32,
) -> (r: Result<Zkp2DelegationData, VotingError>)
    requires
        submitted_proposals_fit(
            tables@,
            bundle_key(round_id@, wallet_id@, bundle_index as int),
        ),
    ensures
        answers(r, zkp2_outcome(tables@, round_id@, wallet_id@, bundle_index)),
        r matches Ok(data) ==> forall|i: u64|
            i < 64 ==> (#[trigger] (data.proposal_authority & (1u64 << i)) != 0 <==> i < 16 && {
                let vote = VoteKey {
                    bundle: BundleKey {
                        round: RoundKey { round_id: round_id@, wallet_id: wallet_id@ },
                        bundle_index: bundle_index as i64,
                    },
                    proposal_id: i as i64,
                };
                !(tables@.votes.contains_key(vote) && tables@.votes[vote].tx_hash is Some)
            }),
{
    let what = "failed to load ZKP2 inputs for";
    let bundle = match tables.bundle(round_id, wallet_id, bundle_index) {
        Some(bundle) => bundle,
        None => return Err(bundle_unread_error(what, round_id, bundle_index)),
    };
    let round = match tables.round(round_id, wallet_id) {
        Some(round) => round,
        None => return Err(bundle_unread_error(what, round_id, bundle_index)),
    };
    let total_note_value: i64 = match bundle.total_note_value {
        Some(value) => value,
        None => 0,
    };
    let address_index: i64 = match bundle.address_index {
        Some(index) => index,
        None => 0,
    };
    let proposal_authority: u64 = proposal_authority(tables, round_id, wallet_id, bundle_index);
    proof {
        let key = bundle_key(round_id@, wallet_id@, bundle_index as int);
        assert forall|i: u64| i < 64 implies (#[trigger] (proposal_authority & (1u64 << i)) != 0
            <==> authority_of(tables@, key).contains(i)) by {
            assert(bits_of(proposal_authority).contains(i) <==> has_bit(proposal_authority, i));
        }
    }
    Ok(
        Zkp2DelegationData {
            gov_comm_rand: copy_or_empty(&bundle.van_comm_rand),
            total_note_value: total_note_value as u64,
            address_index: address_index as u32,
            ea_pk: crate::bytes::copy_bytes(round.ea_pk.as_slice()),
            voting_round_id: round.round_id.clone(),
            proposal_authority,
        },
    )
}

/// A confirmed VAN position that vote tree sync must retain.
#[derive(Clone, Copy, Debug, PartialEq, Eq)]
pub struct VanTreeEntry {
    pub bundle_index: u32,
    pub position: u32,
    /// The delegation VAN, while it is the current VAN of the bundle.
    pub expected_delegation_van: Option<FieldElement>,
}

/// The meaning of a [`VanTreeEntry`].
#[verifier::ext_equal]
pub struct VanTreeModel {
    pub bundle_index: u32,
    pub position: u32,
    pub expected_delegation_van: Option<Bytes>,
}

impl Modeled for VanTreeEntry {
    type Model = VanTreeModel;

    open spec fn model(&self) -> VanTreeModel {
        VanTreeModel {
            bundle_index: self.bundle_index,
            position: self.position,
            expected_delegation_van: self.expected_delegation_van.model(),
        }
    }
}

impl Modeled for Vec<VanTreeEntry> {
    type Model = Seq<VanTreeModel>;

    open spec fn model(&self) -> Seq<VanTreeModel> {
        self@.map_values(|entry: VanTreeEntry| entry.model())
    }
}

/// A bundle has submitted a vote.
pub open spec fn has_submitted_any(tables: Tables, bundle: BundleKey) -> bool {
    exists|key: VoteKey| #[trigger]
        tables.votes.contains_key(key) && key.bundle == bundle && tables.votes[key].tx_hash is Some
}

/// The confirmed bundles of a round, each one once, by index.
pub open spec fn lists_confirmed(keys: Seq<BundleKey>, tables: Tables, round: RoundKey) -> bool {
    &&& keys.no_duplicates()
    &&& keys.to_set() == tables.bundles.dom().filter(
        |key: BundleKey| key.round == round && tables.bundles[key].van_leaf_position is Some,
    )
    &&& forall|i: int, j: int|
        0 <= i < j < keys.len() ==> (#[trigger] keys[i]).bundle_index <= (
        #[trigger] keys[j]).bundle_index
}

/// What vote tree sync must know of a confirmed bundle. A submitted vote
/// replaces the delegation VAN, so that there is none to expect.
pub open spec fn van_tree_entry(tables: Tables, key: BundleKey) -> Result<VanTreeModel, Fault> {
    let bundle = tables.bundles[key];
    let position = number_or_zero(bundle.van_leaf_position);
    let shown = decimal(key.bundle_index as int);
    if !(0 <= key.bundle_index <= u32::MAX) {
        Err(Fault::Internal("stored VAN bundle index does not fit in u32"@))
    } else if !(0 <= position <= u32::MAX) {
        Err(
            Fault::Internal(
                "stored VAN position for bundle "@ + shown + " does not fit in u32"@,
            ),
        )
    } else if has_submitted_any(tables, key) {
        Ok(
            VanTreeModel {
                bundle_index: key.bundle_index as u32,
                position: position as u32,
                expected_delegation_van: None,
            },
        )
    } else if bundle.gov_comm is None {
        Err(
            Fault::Internal(
                "confirmed delegation bundle "@ + shown + " is missing its VAN commitment"@,
            ),
        )
    } else {
        match stored_field(bundle.gov_comm->Some_0, "bundle "@ + shown + " VAN commitment"@) {
            Err(fault) => Err(fault),
            Ok(van) => Ok(
                VanTreeModel {
                    bundle_index: key.bundle_index as u32,
                    position: position as u32,
                    expected_delegation_van: Some(van),
                },
            ),
        }
    }
}

/// What vote tree sync must know of confirmed bundles.
pub open spec fn van_tree_entries(keys: Seq<BundleKey>, tables: Tables) -> Seq<
    Result<VanTreeModel, Fault>,
> {
    keys.map_values(|key: BundleKey| van_tree_entry(tables, key))
}

struct Confirmed<'a> {
    round_id: &'a str,
    wallet_id: &'a str,
}

impl<'a> Filter<BundleRow> for Confirmed<'a> {
    closed spec fn accepts(&self, key: BundleKey, data: BundleColumns) -> bool {
        key.round == round_key(self.round_id@, self.wallet_id@) && data.van_leaf_position is Some
    }

    fn test(&self, row: &BundleRow) -> bool {
        row.van_leaf_position.is_some() && (OfRound {
            round_id: self.round_id,
            wallet_id: self.wallet_id,
        }).test(row)
    }
}

fn read_van_tree_entry(tables: &VotingTables, row: &BundleRow) -> (r: Result<
    VanTreeEntry,
    VotingError,
>)
    requires
        tables@.bundles.contains_key(row.key()),
        tables@.bundles[row.key()] == row.data(),
    ensures
        answers(r, van_tree_entry(tables@, row.key())),
{
    let index: i64 = row.bundle_index;
    let max: i64 = u32::MAX as i64;
    if index < 0 || index > max {
        return Err(Message::new("stored VAN bundle index does not fit in u32").internal());
    }
    let position: i64 = match row.van_leaf_position {
        Some(position) => position,
        None => 0,
    };
    if position < 0 || position > max {
        return Err(
            Message::new("stored VAN position for bundle ").number(index as i128).text(
                " does not fit in u32",
            ).internal(),
        );
    }
    let submitted = tables.votes.find(
        &Submitted {
            round_id: row.round_id.as_str(),
            wallet_id: row.wallet_id.as_str(),
            bundle_index: index,
        },
    );
    proof {
        if let Some(vote) = submitted {
            assert(tables@.votes.contains_key(vote.key()));
        }
    }
    let van = if submitted.is_some() {
        None
    } else {
        match &row.gov_comm {
            Some(commitment) => {
                let name = Message::new("bundle ").number(index as i128).text(
                    " VAN commitment",
                ).into_text();
                match field_from_bytes(commitment.as_slice(), name.as_str()) {
                    Ok(van) => Some(van),
                    Err(error) => return Err(error),
                }
            },
            None => return Err(
                Message::new("confirmed delegation bundle ").number(index as i128).text(
                    " is missing its VAN commitment",
                ).internal(),
            ),
        }
    };
    Ok(
        VanTreeEntry {
            bundle_index: index as u32,
            position: position as u32,
            expected_delegation_van: van,
        },
    )
}

/// Loads the confirmed VAN positions of a round, with the delegation VANs that
/// are still current.
pub fn load_van_tree_entries(tables: &VotingTables, round_id: &str, wallet_id: &str) -> (r: Result<
    Vec<VanTreeEntry>,
    VotingError,
>)
    ensures
        exists|keys: Seq<BundleKey>| #[trigger]
            lists_confirmed(keys, tables@, round_key(round_id@, wallet_id@)) && answers(
                r,
                all_or_first(van_tree_entries(keys, tables@)),
            ),
{
    let rows = tables.bundles.select(&Confirmed { round_id, wallet_id }, &ByBundle);
    let ghost round = round_key(round_id@, wallet_id@);
    let ghost keys = keys_of(rows@);
    let ghost items = van_tree_entries(keys, tables@);
    proof {
        assert(keys.to_set() =~= tables@.bundles.dom().filter(
            |key: BundleKey| key.round == round && tables@.bundles[key].van_leaf_position is Some,
        ));
        assert(lists_confirmed(keys, tables@, round));
        assert(items.take(0) =~= Seq::empty());
    }
    let mut entries: Vec<VanTreeEntry> = Vec::new();
    assert(entries.model() =~= Seq::empty());
    let mut i: usize = 0;
    while i < rows.len()
        invariant
            i <= rows@.len(),
            keys == keys_of(rows@),
            items == van_tree_entries(keys, tables@),
            lists_confirmed(keys, tables@, round_key(round_id@, wallet_id@)),
            forall|j: int|
                0 <= j < rows@.len() ==> tables@.bundles.contains_key((#[trigger] rows@[j]).key())
                    && tables@.bundles[rows@[j].key()] == rows@[j].data(),
            all_or_first(items.take(i as int)) == Ok::<Seq<VanTreeModel>, Fault>(entries.model()),
        decreases rows.len() - i,
    {
        let entry = read_van_tree_entry(tables, rows[i]);
        proof {
            lemma_next_item(items, i as int, entries.model());
        }
        match entry {
            Ok(entry) => {
                let ghost before = entries.model();
                entries.push(entry);
                assert(entries.model() =~= before.push(entry.model()));
            },
            Err(error) => return Err(error),
        }
        i += 1;
    }
    assert(items.take(i as int) =~= items);
    Ok(entries)
}

/// Names a bundle of a wallet in messages.
pub open spec fn bundle_place(round_id: Text, wallet_id: Text, bundle_index: u32) -> Text {
    "round="@ + round_id + ", wallet="@ + wallet_id + ", bundle="@ + decimal(bundle_index as int)
}

fn bundle_place_text(round_id: &str, wallet_id: &str, bundle_index: u32) -> (text: String)
    ensures
        text@ == bundle_place(round_id@, wallet_id@, bundle_index),
{
    Message::new("round=").text(round_id).text(", wallet=").text(wallet_id).text(
        ", bundle=",
    ).number(bundle_index as i128).into_text()
}

/// A transaction hash is recorded for a bundle. The same hash may be recorded
/// again, another one may not.
pub open spec fn store_tx_hash_outcome(
    tables: Tables,
    round_id: Text,
    wallet_id: Text,
    bundle_index: u32,
    tx_hash: Text,
) -> Result<Tables, Fault> {
    let key = bundle_key(round_id, wallet_id, bundle_index as int);
    let place = bundle_place(round_id, wallet_id, bundle_index);
    let bundle = tables.bundles[key];
    if !tables.bundles.contains_key(key) {
        Err(Fault::InvalidInput("no bundle found for "@ + place))
    } else if bundle.delegation_tx_hash is Some && bundle.delegation_tx_hash != Some(tx_hash) {
        Err(Fault::InvalidInput("delegation tx hash already recorded for "@ + place))
    } else {
        Ok(
            with_bundle(
                tables,
                key,
                BundleColumns { delegation_tx_hash: Some(tx_hash), ..bundle },
            ),
        )
    }
}

/// Records the transaction that submitted the delegation of a bundle.
pub fn store_delegation_tx_hash(
    tables: &mut VotingTables,
    round_id: &str,
    wallet_id: &str,
    bundle_index: u32,
    tx_hash: &str,
) -> (r: Result<(), VotingError>)
    ensures
        ran(
            r,
            store_tx_hash_outcome(old(tables)@, round_id@, wallet_id@, bundle_index, tx_hash@),
            old(tables)@,
            final(tables)@,
        ),
{
    match tables.bundles.take(
        &OfBundle { round_id, wallet_id, bundle_index: bundle_index as i64 },
    ) {
        Some(mut row) => {
            let ghost key = row.key();
            let conflict = match &row.delegation_tx_hash {
                Some(stored) => !str_eq(stored.as_str(), tx_hash),
                None => false,
            };
            if !conflict {
                row.delegation_tx_hash = Some(tx_hash.to_owned());
            }
            tables.bundles.put(row);
            assert(tables@.bundles =~= old(tables)@.bundles.insert(key, row.data()));
            if conflict {
                assert(tables@.bundles =~= old(tables)@.bundles);
                return Err(
                    Message::new("delegation tx hash already recorded for ").text(
                        bundle_place_text(round_id, wallet_id, bundle_index).as_str(),
                    ).invalid(),
                );
            }
            Ok(())
        },
        None => Err(
            Message::new("no bundle found for ").text(
                bundle_place_text(round_id, wallet_id, bundle_index).as_str(),
            ).invalid(),
        ),
    }
}

/// The transaction that submitted the delegation of a bundle.
pub open spec fn tx_hash_outcome(tables: Tables, key: BundleKey) -> Result<Option<Text>, Fault> {
    if !tables.bundles.contains_key(key) {
        Err(Fault::Internal("failed to get delegation tx hash: "@ + no_row()))
    } else {
        Ok(tables.bundles[key].delegation_tx_hash)
    }
}

/// Reads the transaction that submitted the delegation of a bundle.
pub fn get_delegation_tx_hash(
    tables: &VotingTables,
    round_id: &str,
    wallet_id: &str,
    bundle_index: u32,
) -> (r: Result<Option<String>, VotingError>)
    ensures
        answers(
            r,
            tx_hash_outcome(tables@, bundle_key(round_id@, wallet_id@, bundle_index as int)),
        ),
{
    match tables.bundle(round_id, wallet_id, bundle_index) {
        Some(bundle) => Ok(copy_optional_text(&bundle.delegation_tx_hash)),
        None => Err(
            Message::new("failed to get delegation tx hash: ").text(no_row_text()).internal(),
        ),
    }
}

} // verus!
