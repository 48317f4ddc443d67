//! Values that callers exchange with the voting state, and its errors.

use vstd::prelude::*;

use crate::text::{decimal_list_text, decimal_text};

verus! {

/// Text in contracts.
pub type Text = Seq<char>;

/// A byte string in contracts.
pub type Bytes = Seq<u8>;

/// A value that stands for a mathematical one.
pub trait Modeled {
    type Model;

    spec fn model(&self) -> Self::Model;
}

/// Why an operation was refused.
#[derive(Clone, Debug, PartialEq, Eq)]
pub enum VotingError {
    /// The request does not fit the stored state.
    InvalidInput { message: String },
    /// The stored state is unusable.
    Internal { message: String },
}

/// The meaning of a [`VotingError`].
pub enum Fault {
    InvalidInput(Text),
    Internal(Text),
}

impl View for VotingError {
    type V = Fault;

    open spec fn view(&self) -> Fault {
        match self {
            VotingError::InvalidInput { message } => Fault::InvalidInput(message@),
            VotingError::Internal { message } => Fault::Internal(message@),
        }
    }
}

/// A fault as it is shown to users.
pub open spec fn fault_text(fault: Fault) -> Text {
    match fault {
        Fault::InvalidInput(message) => "invalid input: "@ + message,
        Fault::Internal(message) => "internal error: "@ + message,
    }
}

impl VotingError {
    /// The error as it is shown to users.
    pub fn text(&self) -> (text: String)
        ensures
            text@ == fault_text(self@),
    {
        match self {
            VotingError::InvalidInput { message } => "invalid input: ".to_owned().concat(
                message.as_str(),
            ),
            VotingError::Internal { message } => "internal error: ".to_owned().concat(
                message.as_str(),
            ),
        }
    }
}

/// A result answers an outcome: the value stands for the outcome's value, or
/// the error says the outcome's fault.
pub open spec fn answers<T: Modeled>(
    result: Result<T, VotingError>,
    outcome: Result<T::Model, Fault>,
) -> bool {
    match (result, outcome) {
        (Ok(value), Ok(model)) => value.model() == model,
        (Err(error), Err(fault)) => error@ == fault,
        _ => false,
    }
}

/// All values of a list of results, or the first fault in it.
pub open spec fn all_or_first<T>(items: Seq<Result<T, Fault>>) -> Result<Seq<T>, Fault>
    decreases items.len(),
{
    if items.len() == 0 {
        Ok(Seq::empty())
    } else {
        match all_or_first(items.drop_last()) {
            Err(fault) => Err(fault),
            Ok(front) => match items.last() {
                Err(fault) => Err(fault),
                Ok(value) => Ok(front.push(value)),
            },
        }
    }
}

/// A fault in the front of a list is the first fault of the list.
pub proof fn lemma_first_fault<T>(items: Seq<Result<T, Fault>>, n: int)
    requires
        0 <= n <= items.len(),
        all_or_first(items.take(n)) is Err,
    ensures
        all_or_first(items) == all_or_first(items.take(n)),
    decreases items.len(),
{
    if n == items.len() {
        assert(items.take(n) =~= items);
    } else {
        assert(items.drop_last().take(n) =~= items.take(n));
        lemma_first_fault(items.drop_last(), n);
    }
}

/// A list without faults gives all its values.
pub proof fn lemma_all_values<T>(items: Seq<Result<T, Fault>>, values: Seq<T>)
    requires
        items.len() == values.len(),
        forall|i: int| 0 <= i < items.len() ==> #[trigger] items[i] == Ok::<T, Fault>(values[i]),
    ensures
        all_or_first(items) == Ok::<Seq<T>, Fault>(values),
    decreases items.len(),
{
    if items.len() > 0 {
        let front = items.drop_last();
        assert forall|i: int| 0 <= i < front.len() implies #[trigger] front[i] == Ok::<T, Fault>(
            values.drop_last()[i],
        ) by {
            assert(front[i] == items[i]);
        }
        lemma_all_values(front, values.drop_last());
        assert(items[items.len() - 1] == Ok::<T, Fault>(values.last()));
        assert(values.drop_last().push(values.last()) =~= values);
    } else {
        assert(values =~= Seq::<T>::empty());
    }
}

/// The next item of a list, after values only, decides how the list goes on.
pub proof fn lemma_next_item<T>(items: Seq<Result<T, Fault>>, n: int, values: Seq<T>)
    requires
        0 <= n < items.len(),
        all_or_first(items.take(n)) == Ok::<Seq<T>, Fault>(values),
    ensures
        match items[n] {
            Ok(value) => all_or_first(items.take(n + 1)) == Ok::<Seq<T>, Fault>(
                values.push(value),
            ),
            Err(fault) => all_or_first(items) == Err::<Seq<T>, Fault>(fault),
        },
{
    assert(items.take(n + 1).drop_last() =~= items.take(n));
    assert(items.take(n + 1).last() == items[n]);
    if items[n] is Err {
        lemma_first_fault(items, n + 1);
    }
}

/// A list of results gives its values, each in its place, exactly if none of
/// them is a fault; else it gives a fault with only values before it.
pub proof fn law_all_or_first<T>(items: Seq<Result<T, Fault>>)
    ensures
        match all_or_first(items) {
            Ok(values) => values.len() == items.len() && forall|i: int|
                0 <= i < items.len() ==> #[trigger] items[i] == Ok::<T, Fault>(values[i]),
            Err(fault) => exists|i: int|
                0 <= i < items.len() && (#[trigger] items[i]) == Err::<T, Fault>(fault)
                    && forall|j: int| 0 <= j < i ==> (#[trigger] items[j]) is Ok,
        },
    decreases items.len(),
{
    if items.len() > 0 {
        let front = items.drop_last();
        law_all_or_first(front);
        match all_or_first(front) {
            Err(fault) => {
                let i = choose|i: int|
                    0 <= i < front.len() && (#[trigger] front[i]) == Err::<T, Fault>(fault)
                        && forall|j: int| 0 <= j < i ==> (#[trigger] front[j]) is Ok;
                assert(items[i] == Err::<T, Fault>(fault));
                assert forall|j: int| 0 <= j < i implies (#[trigger] items[j]) is Ok by {
                    assert(front[j] is Ok);
                }
            },
            Ok(values) => {
                assert forall|j: int| 0 <= j < front.len() implies #[trigger] items[j] == Ok::<
                    T,
                    Fault,
                >(values[j]) by {
                    assert(front[j] == Ok::<T, Fault>(values[j]));
                }
                let n = items.len() - 1;
                assert(items[n] == items.last());
            },
        }
    }
}

/// Text under construction for an error.
pub struct Message {
    text: String,
}

impl View for Message {
    type V = Text;

    closed spec fn view(&self) -> Text {
        self.text@
    }
}

impl Message {
    /// Starts with some text.
    pub fn new(part: &str) -> (message: Self)
        ensures
            message@ == part@,
    {
        Message { text: part.to_owned() }
    }

    /// Goes on with some text.
    pub fn text(self, part: &str) -> (message: Self)
        ensures
            message@ == self@ + part@,
    {
        Message { text: self.text.concat(part) }
    }

    /// Goes on with a number.
    pub fn number(self, n: i128) -> (message: Self)
        requires
            n > i128::MIN,
        ensures
            message@ == self@ + crate::text::decimal(n as int),
    {
        let digits = decimal_text(n);
        Message { text: self.text.concat(digits.as_str()) }
    }

    /// Goes on with a list of numbers.
    pub fn numbers(self, values: &[u64]) -> (message: Self)
        ensures
            message@ == self@ + crate::text::decimal_list(values@),
    {
        let list = decimal_list_text(values);
        Message { text: self.text.concat(list.as_str()) }
    }

    /// The finished text.
    pub fn into_text(self) -> (text: String)
        ensures
            text@ == self@,
    {
        self.text
    }

    /// An error about the request.
    pub fn invalid(self) -> (error: VotingError)
        ensures
            error@ == Fault::InvalidInput(self@),
    {
        VotingError::InvalidInput { message: self.text }
    }

    /// An error about the stored state.
    pub fn internal(self) -> (error: VotingError)
        ensures
            error@ == Fault::Internal(self@),
    {
        VotingError::Internal { message: self.text }
    }
}

impl Modeled for () {
    type Model = ();

    open spec fn model(&self) -> () {
        ()
    }
}

impl Modeled for bool {
    type Model = bool;

    open spec fn model(&self) -> bool {
        *self
    }
}

impl Modeled for u32 {
    type Model = u32;

    open spec fn model(&self) -> u32 {
        *self
    }
}

impl Modeled for u64 {
    type Model = u64;

    open spec fn model(&self) -> u64 {
        *self
    }
}

impl Modeled for i64 {
    type Model = i64;

    open spec fn model(&self) -> i64 {
        *self
    }
}

impl Modeled for usize {
    type Model = usize;

    open spec fn model(&self) -> usize {
        *self
    }
}

impl Modeled for String {
    type Model = Text;

    open spec fn model(&self) -> Text {
        self@
    }
}

impl Modeled for Vec<u8> {
    type Model = Bytes;

    open spec fn model(&self) -> Bytes {
        self@
    }
}

impl Modeled for Vec<u64> {
    type Model = Seq<u64>;

    open spec fn model(&self) -> Seq<u64> {
        self@
    }
}

impl Modeled for Vec<Vec<u8>> {
    type Model = Seq<Bytes>;

    open spec fn model(&self) -> Seq<Bytes> {
        crate::bytes::parts_of(self@)
    }
}

impl<T: Modeled> Modeled for Option<T> {
    type Model = Option<T::Model>;

    open spec fn model(&self) -> Option<T::Model> {
        match self {
            Some(value) => Some(value.model()),
            None => None,
        }
    }
}

impl<A: Modeled, B: Modeled> Modeled for (A, B) {
    type Model = (A::Model, B::Model);

    open spec fn model(&self) -> (A::Model, B::Model) {
        (self.0.model(), self.1.model())
    }
}

/// The network that a round belongs to.
#[derive(Clone, Copy, Debug, PartialEq, Eq, Structural)]
pub enum Network {
    Mainnet,
    Testnet,
    Regtest,
}

impl Modeled for Network {
    type Model = Network;

    open spec fn model(&self) -> Network {
        *self
    }
}

/// What defines a voting round.
#[derive(Clone, Debug, PartialEq, Eq)]
pub struct VotingRoundParams {
    pub vote_round_id: String,
    pub snapshot_height: u64,
    pub ea_pk: Vec<u8>,
    pub nc_root: Vec<u8>,
    pub nullifier_imt_root: Vec<u8>,
}

/// The meaning of [`VotingRoundParams`].
pub struct RoundParamsModel {
    pub vote_round_id: Text,
    pub snapshot_height: u64,
    pub ea_pk: Bytes,
    pub nc_root: Bytes,
    pub nullifier_imt_root: Bytes,
}

impl Modeled for VotingRoundParams {
    type Model = RoundParamsModel;

    open spec fn model(&self) -> RoundParamsModel {
        RoundParamsModel {
            vote_round_id: self.vote_round_id@,
            snapshot_height: self.snapshot_height,
            ea_pk: self.ea_pk@,
            nc_root: self.nc_root@,
            nullifier_imt_root: self.nullifier_imt_root@,
        }
    }
}

/// A shielded note that delegates its value.
#[derive(Clone, Debug, PartialEq, Eq)]
pub struct NoteInfo {
    pub commitment: Vec<u8>,
    pub nullifier: Vec<u8>,
    pub value: u64,
    pub position: u64,
    pub diversifier: Vec<u8>,
    pub rho: Vec<u8>,
    pub rseed: Vec<u8>,
    pub scope: u32,
    pub ufvk_str: String,
}

/// The meaning of a [`NoteInfo`].
#[verifier::ext_equal]
pub struct NoteModel {
    pub commitment: Bytes,
    pub nullifier: Bytes,
    pub value: u64,
    pub position: u64,
    pub diversifier: Bytes,
    pub rho: Bytes,
    pub rseed: Bytes,
    pub scope: u32,
    pub ufvk_str: Text,
}

impl Modeled for NoteInfo {
    type Model = NoteModel;

    open spec fn model(&self) -> NoteModel {
        NoteModel {
            commitment: self.commitment@,
            nullifier: self.nullifier@,
            value: self.value,
            position: self.position,
            diversifier: self.diversifier@,
            rho: self.rho@,
            rseed: self.rseed@,
            scope: self.scope,
            ufvk_str: self.ufvk_str@,
        }
    }
}

/// The meaning of a list of notes.
pub open spec fn notes_of(notes: Seq<NoteInfo>) -> Seq<NoteModel> {
    notes.map_values(|note: NoteInfo| note.model())
}

/// A Merkle inclusion proof of a note commitment.
#[derive(Clone, Debug, PartialEq, Eq)]
pub struct WitnessData {
    pub note_commitment: Vec<u8>,
    pub position: u64,
    pub root: Vec<u8>,
    pub auth_path: Vec<Vec<u8>>,
}

/// The meaning of a [`WitnessData`].
#[verifier::ext_equal]
pub struct WitnessModel {
    pub note_commitment: Bytes,
    pub position: u64,
    pub root: Bytes,
    pub auth_path: Seq<Bytes>,
}

impl Modeled for WitnessData {
    type Model = WitnessModel;

    open spec fn model(&self) -> WitnessModel {
        WitnessModel {
            note_commitment: self.note_commitment@,
            position: self.position,
            root: self.root@,
            auth_path: self.auth_path.model(),
        }
    }
}

/// The meaning of a list of witnesses.
pub open spec fn witnesses_of(witnesses: Seq<WitnessData>) -> Seq<WitnessModel> {
    witnesses.map_values(|witness: WitnessData| witness.model())
}

impl Modeled for Vec<WitnessData> {
    type Model = Seq<WitnessModel>;

    open spec fn model(&self) -> Seq<WitnessModel> {
        witnesses_of(self@)
    }
}

/// A vote as it is listed.
#[derive(Clone, Copy, Debug, PartialEq, Eq)]
pub struct VoteRecord {
    pub proposal_id: u32,
    pub bundle_index: u32,
    pub choice: u32,
}

impl Modeled for Vec<VoteRecord> {
    type Model = Seq<VoteRecord>;

    open spec fn model(&self) -> Seq<VoteRecord> {
        self@
    }
}

/// A Keystone signature of a bundle.
#[derive(Clone, Debug, PartialEq, Eq)]
pub struct KeystoneSignatureRecord {
    pub bundle_index: u32,
    pub sig: Vec<u8>,
    pub sighash: Vec<u8>,
    pub rk: Vec<u8>,
}

/// The meaning of a [`KeystoneSignatureRecord`].
#[verifier::ext_equal]
pub struct KeystoneModel {
    pub bundle_index: u32,
    pub sig: Bytes,
    pub sighash: Bytes,
    pub rk: Bytes,
}

impl Modeled for KeystoneSignatureRecord {
    type Model = KeystoneModel;

    open spec fn model(&self) -> KeystoneModel {
        KeystoneModel {
            bundle_index: self.bundle_index,
            sig: self.sig@,
            sighash: self.sighash@,
            rk: self.rk@,
        }
    }
}

impl Modeled for Vec<KeystoneSignatureRecord> {
    type Model = Seq<KeystoneModel>;

    open spec fn model(&self) -> Seq<KeystoneModel> {
        self@.map_values(|record: KeystoneSignatureRecord| record.model())
    }
}

/// A share of a vote that was handed to helper servers.
#[derive(Clone, Debug, PartialEq, Eq)]
pub struct ShareDelegationRecord {
    pub round_id: String,
    pub bundle_index: u32,
    pub proposal_id: u32,
    pub share_index: u32,
    pub sent_to_urls: Vec<String>,
    pub nullifier: Vec<u8>,
    pub confirmed: bool,
    pub submit_at: u64,
    pub created_at: u64,
}

/// The meaning of a list of strings.
pub open spec fn texts_of(texts: Seq<String>) -> Seq<Text> {
    texts.map_values(|text: String| text@)
}

impl Modeled for Vec<String> {
    type Model = Seq<Text>;

    open spec fn model(&self) -> Seq<Text> {
        texts_of(self@)
    }
}

/// The meaning of a [`ShareDelegationRecord`].
#[verifier::ext_equal]
pub struct ShareModel {
    pub round_id: Text,
    pub bundle_index: u32,
    pub proposal_id: u32,
    pub share_index: u32,
    pub sent_to_urls: Seq<Text>,
    pub nullifier: Bytes,
    pub confirmed: bool,
    pub submit_at: u64,
    pub created_at: u64,
}

impl Modeled for ShareDelegationRecord {
    type Model = ShareModel;

    open spec fn model(&self) -> ShareModel {
        ShareModel {
            round_id: self.round_id@,
            bundle_index: self.bundle_index,
            proposal_id: self.proposal_id,
            share_index: self.share_index,
            sent_to_urls: texts_of(self.sent_to_urls@),
            nullifier: self.nullifier@,
            confirmed: self.confirmed,
            submit_at: self.submit_at,
            created_at: self.created_at,
        }
    }
}

impl Modeled for Vec<ShareDelegationRecord> {
    type Model = Seq<ShareModel>;

    open spec fn model(&self) -> Seq<ShareModel> {
        self@.map_values(|record: ShareDelegationRecord| record.model())
    }
}

} // verus!
