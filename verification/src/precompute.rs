//! Precomputation of delegation inputs, and the vote trees of wallets.
//!
//! Merkle roots, vote trees and private information retrieval are worked
//! elsewhere; what they answer is judged here.

use vstd::prelude::*;

use crate::storage::queries::recovery::unsigned_setup_cleared;
use crate::storage::rows::round_key;
use crate::storage::VotingDb;
use crate::text::{decimal, str_eq};
use crate::types::{answers, texts_of, Fault, Message, Text, VotingError, WitnessData};

verus! {

/// Result of PIR precomputation for one delegation bundle.
#[derive(Clone, Copy, Debug, PartialEq, Eq)]
pub struct PirPrecomputeReport {
    pub cached: u32,
    pub fetched: u32,
}

/// What fetching the non-membership proofs of a bundle answers: how many were
/// cached, and how many were fetched.
#[derive(Clone, Copy, Debug, PartialEq, Eq)]
pub struct PirPrecomputeResult {
    pub cached_count: u32,
    pub fetched_count: u32,
}

/// A report on a prepared delegation bundle.
#[derive(Clone, Copy, Debug, PartialEq, Eq)]
pub struct PreparedDelegationReport<L> {
    pub report: PirPrecomputeReport,
    pub layout: L,
    pub bundle_index: u32,
}

/// Judges a shielded note witness by the outcome of recomputing its root.
///
/// The witness holds if the recomputed root is the stored one. It is refused
/// if it is not, and if its bytes are malformed.
pub fn verify_witness(witness: &WitnessData, recomputed: Result<bool, VotingError>) -> (r: Result<
    (),
    VotingError,
>)
    ensures
        match recomputed {
            Ok(true) => r is Ok,
            Ok(false) => r matches Err(e) && e@ == Fault::InvalidInput(
                "witness root mismatch at note position "@ + decimal(witness.position as int),
            ),
            Err(malformed) => r matches Err(e) && e@ == malformed@,
        },
{
    match recomputed {
        Ok(true) => Ok(()),
        Ok(false) => Err(
            Message::new("witness root mismatch at note position ").number(
                witness.position as i128,
            ).invalid(),
        ),
        Err(malformed) => Err(malformed),
    }
}

/// Finishes the reset of a voting session after its vote tree was reset.
///
/// Once the tree is reset, the unsigned delegation setup of the round is
/// cleared, so that an interrupted signing request can be built anew. An empty
/// round stands for all rounds: then only the vote trees are reset.
pub fn reset_voting_session_state(
    db: &mut VotingDb,
    round_id: &str,
    tree_reset: Result<(), VotingError>,
) -> (r: Result<(), VotingError>)
    requires
        old(db).wallet@.len() > 0,
    ensures
        match tree_reset {
            Ok(_) => r is Ok,
            Err(error) => r matches Err(e) && e@ == error@,
        },
        final(db).tables@ == if tree_reset is Ok && round_id@.len() > 0 {
            unsigned_setup_cleared(old(db).tables@, round_key(round_id@, old(db).wallet@))
        } else {
            old(db).tables@
        },
        final(db).wallet@ == old(db).wallet@,
        final(db).version == old(db).version,
{
    if let Err(error) = tree_reset {
        return Err(error);
    }
    if !round_id.is_empty() {
        return db.clear_unsigned_delegation_setup_fields(round_id);
    }
    Ok(())
}

/// The wallets that have a vote tree, each one in a slot of its own.
pub struct VoteTreeSlots {
    wallets: Vec<String>,
}

impl View for VoteTreeSlots {
    type V = Seq<Text>;

    closed spec fn view(&self) -> Seq<Text> {
        texts_of(self.wallets@)
    }
}

impl VoteTreeSlots {
    #[verifier::type_invariant]
    spec fn well_formed(self) -> bool {
        texts_of(self.wallets@).no_duplicates()
    }

    /// No wallet has a vote tree.
    pub fn new() -> (slots: Self)
        ensures
            slots@ == Seq::<Text>::empty(),
    {
        let wallets: Vec<String> = Vec::new();
        assert(texts_of(wallets@) =~= Seq::<Text>::empty());
        VoteTreeSlots { wallets }
    }
}

/// The wallets that have a vote tree once a wallet asked for its own.
pub open spec fn with_wallet(wallets: Seq<Text>, wallet: Text) -> Seq<Text> {
    if wallets.contains(wallet) {
        wallets
    } else {
        wallets.push(wallet)
    }
}

/// A wallet that asks for its vote tree takes no slot from another one and gets
/// one more at most: each slot keeps its wallet, and only a wallet without a
/// slot gets a new one, which is the last.
pub proof fn law_slots_keep_their_wallets(wallets: Seq<Text>, wallet: Text)
    ensures
        ({
            let next = with_wallet(wallets, wallet);
            &&& next.contains(wallet)
            &&& wallets.contains(wallet) ==> next == wallets
            &&& !wallets.contains(wallet) ==> next.len() == wallets.len() + 1 && next.last()
                == wallet && next.drop_last() == wallets
        }),
{
    let next = with_wallet(wallets, wallet);
    if !wallets.contains(wallet) {
        assert(next[wallets.len() as int] == wallet);
        assert(next.drop_last() =~= wallets);
    }
}

/// The slot of the vote tree of the wallet; a wallet that has none gets the
/// next one.
pub fn vote_tree_sync_for(slots: &mut VoteTreeSlots, db: &VotingDb) -> (slot: usize)
    requires
        db.wallet@.len() > 0,
    ensures
        final(slots)@ == with_wallet(old(slots)@, db.wallet@),
        final(slots)@.no_duplicates(),
        slot < final(slots)@.len(),
        final(slots)@[slot as int] == db.wallet@,
{
    proof {
        use_type_invariant(&*slots);
    }
    let wallet = db.wallet_id();
    let mut i: usize = 0;
    while i < slots.wallets.len()
        invariant
            i <= slots.wallets@.len(),
            slots@ == old(slots)@,
            slots@ == texts_of(slots.wallets@),
            slots@.no_duplicates(),
            wallet@ == db.wallet@,
            forall|j: int| 0 <= j < i ==> slots@[j] != wallet@,
        decreases slots.wallets.len() - i,
    {
        if str_eq(slots.wallets[i].as_str(), wallet.as_str()) {
            assert(slots@[i as int] == wallet@);
            return i;
        }
        assert(slots@[i as int] != wallet@);
        i += 1;
    }
    let mut wallets: Vec<String> = Vec::new();
    core::mem::swap(&mut wallets, &mut slots.wallets);
    let ghost before = texts_of(wallets@);
    let ghost text = wallet@;
    wallets.push(wallet);
    assert(texts_of(wallets@) =~= before.push(text));
    slots.wallets = wallets;
    i
}

/// Reports on the non-membership proofs of a bundle.
pub fn delegation_pir(precomputed: Result<PirPrecomputeResult, VotingError>) -> (r: Result<
    PirPrecomputeReport,
    VotingError,
>)
    ensures
        match precomputed {
            Ok(result) => r matches Ok(report) && report.cached == result.cached_count
                && report.fetched == result.fetched_count,
            Err(error) => r matches Err(e) && e@ == error@,
        },
{
    match precomputed {
        Ok(result) => Ok(
            PirPrecomputeReport { cached: result.cached_count, fetched: result.fetched_count },
        ),
        Err(error) => Err(error),
    }
}

/// Reports on a bundle whose padding secrets are ready and whose
/// non-membership proofs were fetched after that.
pub fn warm_delegation_pir<L>(
    secrets_ready: Result<(), VotingError>,
    precomputed: Result<PirPrecomputeResult, VotingError>,
    layout: L,
    bundle_index: u32,
) -> (r: Result<PreparedDelegationReport<L>, VotingError>)
    ensures
        match (secrets_ready, precomputed) {
            (Err(error), _) => r matches Err(e) && e@ == error@,
            (Ok(_), Err(error)) => r matches Err(e) && e@ == error@,
            (Ok(_), Ok(result)) => r matches Ok(prepared) && prepared.report.cached
                == result.cached_count && prepared.report.fetched == result.fetched_count
                && prepared.layout == layout && prepared.bundle_index == bundle_index,
        },
{
    if let Err(error) = secrets_ready {
        return Err(error);
    }
    match delegation_pir(precomputed) {
        Ok(report) => Ok(PreparedDelegationReport { report, layout, bundle_index }),
        Err(error) => Err(error),
    }
}

/// A witness is accepted exactly if its root was recomputed and found to be the
/// stored one. A root that differs is refused with the position of the note,
/// malformed bytes with what is wrong with them.
pub proof fn law_witnesses_are_judged(
    witness: &WitnessData,
    recomputed: Result<bool, VotingError>,
    judged: Result<(), VotingError>,
)
    requires
        call_ensures(verify_witness, (witness, recomputed), judged),
    ensures
        judged is Ok <==> recomputed is Ok && recomputed->Ok_0,
        recomputed matches Err(error) ==> judged is Err && judged->Err_0@ == error@,
        recomputed is Ok && judged is Err ==> judged->Err_0@ == Fault::InvalidInput(
            "witness root mismatch at note position "@ + decimal(witness.position as int),
        ),
{
}

/// A report counts what was cached and what was fetched, and a failure is
/// reported as it is. A prepared bundle is reported with the same counts and as
/// it was given, exactly if its secrets are ready too.
pub proof fn law_precomputation_is_reported<L>(
    secrets_ready: Result<(), VotingError>,
    precomputed: Result<PirPrecomputeResult, VotingError>,
    layout: L,
    bundle_index: u32,
    report: Result<PirPrecomputeReport, VotingError>,
    prepared: Result<PreparedDelegationReport<L>, VotingError>,
)
    requires
        call_ensures(delegation_pir, (precomputed,), report),
        call_ensures(
            warm_delegation_pir::<L>,
            (secrets_ready, precomputed, layout, bundle_index),
            prepared,
        ),
    ensures
        report is Ok <==> precomputed is Ok,
        report is Ok ==> report->Ok_0.cached == precomputed->Ok_0.cached_count
            && report->Ok_0.fetched == precomputed->Ok_0.fetched_count,
        report is Err ==> report->Err_0@ == precomputed->Err_0@,
        prepared is Ok <==> secrets_ready is Ok && precomputed is Ok,
        prepared is Ok ==> prepared->Ok_0.report == report->Ok_0 && prepared->Ok_0.layout == layout
            && prepared->Ok_0.bundle_index == bundle_index,
        secrets_ready is Err ==> prepared->Err_0@ == secrets_ready->Err_0@,
        secrets_ready is Ok && precomputed is Err ==> prepared->Err_0@ == precomputed->Err_0@,
{
}

} // verus!
