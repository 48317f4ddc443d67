//! Elements of the Pallas base field, as they are stored.

use vstd::prelude::*;

use ff::PrimeField;
use pasta_curves::pallas;

use crate::bytes::{
    append_bytes, copy_bytes, entries_of, joined, le_value, lemma_split_after_join, split_entries,
};
use crate::text::decimal;
use crate::types::{
    all_or_first, answers, lemma_all_values, lemma_next_item, Bytes, Fault, Message, Modeled, Text,
    VotingError,
};

verus! {

/// The modulus of the Pallas base field.
pub open spec fn pallas_modulus() -> nat {
    0x40000000000000000000000000000000224698fc094cf91b992d30ed00000001nat
}

/// Decodes a field element with `pallas::Base::from_repr` and encodes it again
/// with `to_repr`. A little-endian byte string is decoded if and only if the
/// number that it stands for is below the modulus, and the element is encoded
/// as the byte string it came from.
#[verifier::external_body]
fn pallas_base_repr(repr: [u8; 32]) -> (element: Option<[u8; 32]>)
    ensures
        element is Some <==> le_value(repr@) < pallas_modulus(),
        element matches Some(canonical) ==> canonical@ == repr@,
{
    Option::<pallas::Base>::from(pallas::Base::from_repr(repr)).map(|element| element.to_repr())
}

/// An element of the Pallas base field in its canonical encoding.
#[derive(Clone, Copy, Debug, PartialEq, Eq)]
pub struct FieldElement {
    repr: [u8; 32],
}

impl View for FieldElement {
    type V = Bytes;

    closed spec fn view(&self) -> Bytes {
        self.repr@
    }
}

/// The byte string encodes a field element.
pub open spec fn is_canonical(repr: Bytes) -> bool {
    repr.len() == 32 && le_value(repr) < pallas_modulus()
}

impl FieldElement {
    #[verifier::type_invariant]
    spec fn well_formed(self) -> bool {
        is_canonical(self.repr@)
    }

    /// The element that a byte string encodes.
    pub fn from_repr(repr: [u8; 32]) -> (element: Option<FieldElement>)
        ensures
            element is Some <==> is_canonical(repr@),
            element matches Some(e) ==> e@ == repr@,
    {
        match pallas_base_repr(repr) {
            Some(canonical) => Some(FieldElement { repr: canonical }),
            None => None,
        }
    }

    /// The encoding of the element.
    pub fn to_repr(&self) -> (repr: [u8; 32])
        ensures
            repr@ == self@,
            is_canonical(repr@),
    {
        proof {
            use_type_invariant(self);
        }
        self.repr
    }
}

/// The field element that stored bytes encode; `name` is what messages call it.
pub open spec fn stored_field(bytes: Bytes, name: Text) -> Result<Bytes, Fault> {
    if bytes.len() != 32 {
        Err(Fault::Internal(name + " must be 32 bytes, got "@ + decimal(bytes.len() as int)))
    } else if le_value(bytes) >= pallas_modulus() {
        Err(Fault::Internal(name + " is not a valid Pallas field element"@))
    } else {
        Ok(bytes)
    }
}

impl Modeled for FieldElement {
    type Model = Bytes;

    open spec fn model(&self) -> Bytes {
        self@
    }
}

/// Writes a field element.
pub fn field_to_bytes(value: FieldElement) -> (bytes: Vec<u8>)
    ensures
        bytes@ == value@,
        is_canonical(bytes@),
{
    let repr = value.to_repr();
    copy_bytes(repr.as_slice())
}

/// Reads a field element.
pub fn field_from_bytes(bytes: &[u8], name: &str) -> (r: Result<FieldElement, VotingError>)
    ensures
        answers(r, stored_field(bytes@, name@)),
{
    if bytes.len() != 32 {
        return Err(
            Message::new(name).text(" must be 32 bytes, got ").number(
                bytes.len() as i128,
            ).internal(),
        );
    }
    let mut repr: [u8; 32] = [0; 32];
    let mut i: usize = 0;
    while i < 32
        invariant
            i <= 32,
            bytes@.len() == 32,
            forall|j: int| 0 <= j < i ==> repr@[j] == bytes@[j],
        decreases 32 - i,
    {
        repr[i] = bytes[i];
        i += 1;
    }
    assert(repr@ =~= bytes@);
    match FieldElement::from_repr(repr) {
        Some(element) => Ok(element),
        None => Err(Message::new(name).text(" is not a valid Pallas field element").internal()),
    }
}

/// The encodings of a list of field elements.
pub open spec fn reprs_of(values: Seq<FieldElement>) -> Seq<Bytes> {
    values.map_values(|value: FieldElement| value@)
}

/// Writes field elements one behind the other.
pub fn fields_to_blob(values: &[FieldElement]) -> (blob: Vec<u8>)
    ensures
        blob@ == joined(reprs_of(values@)),
{
    let mut blob: Vec<u8> = Vec::new();
    let mut i: usize = 0;
    while i < values.len()
        invariant
            i <= values.len(),
            blob@ == joined(reprs_of(values@).take(i as int)),
        decreases values.len() - i,
    {
        let repr = values[i].to_repr();
        append_bytes(&mut blob, repr.as_slice());
        assert(reprs_of(values@).take(i + 1).drop_last() =~= reprs_of(values@).take(i as int));
        i += 1;
    }
    assert(reprs_of(values@).take(i as int) =~= reprs_of(values@));
    blob
}

/// What each entry of a list encodes; an entry that encodes no field element is
/// reported by its place.
pub open spec fn stored_entries(entries: Seq<Bytes>, name: Text) -> Seq<Result<Bytes, Fault>> {
    Seq::new(
        entries.len(),
        |i: int| stored_field(entries[i], name + "["@ + decimal(i) + "]"@),
    )
}

/// The field elements that a blob stores.
pub open spec fn stored_fields(blob: Bytes, count: nat, name: Text) -> Result<Seq<Bytes>, Fault> {
    if blob.len() != count * 32 {
        Err(
            Fault::Internal(
                name + " must be "@ + decimal((count * 32) as int) + " bytes, got "@ + decimal(
                    blob.len() as int,
                ),
            ),
        )
    } else {
        all_or_first(stored_entries(entries_of(blob, 32), name))
    }
}

impl Modeled for Vec<FieldElement> {
    type Model = Seq<Bytes>;

    open spec fn model(&self) -> Seq<Bytes> {
        reprs_of(self@)
    }
}

/// Field elements are read back from the blob that they are written to.
pub proof fn law_fields_round_trip(reprs: Seq<Bytes>, name: Text)
    requires
        forall|i: int| 0 <= i < reprs.len() ==> is_canonical(#[trigger] reprs[i]),
    ensures
        stored_fields(joined(reprs), reprs.len(), name) == Ok::<Seq<Bytes>, Fault>(reprs),
{
    lemma_split_after_join(reprs, 32);
    assert forall|i: int| 0 <= i < reprs.len() implies #[trigger] stored_entries(reprs, name)[i]
        == Ok::<Bytes, Fault>(reprs[i]) by {
        assert(is_canonical(reprs[i]));
    }
    lemma_all_values(stored_entries(reprs, name), reprs);
}

/// Reads `count` field elements from a blob.
pub fn fields_from_blob(blob: &[u8], count: usize, name: &str) -> (r: Result<
    Vec<FieldElement>,
    VotingError,
>)
    requires
        count * 32 <= usize::MAX,
    ensures
        answers(r, stored_fields(blob@, count as nat, name@)),
        r matches Ok(fields) ==> fields@.len() == count,
{
    let expected: usize = count * 32;
    if blob.len() != expected {
        return Err(
            Message::new(name).text(" must be ").number(expected as i128).text(
                " bytes, got ",
            ).number(blob.len() as i128).internal(),
        );
    }
    let entries = split_entries(blob, 32);
    let ghost parts = entries_of(blob@, 32);
    let mut fields: Vec<FieldElement> = Vec::new();
    assert(reprs_of(fields@) =~= Seq::<Bytes>::empty());
    let mut i: usize = 0;
    while i < entries.len()
        invariant
            i <= entries@.len(),
            entries@.len() == count,
            parts == entries.model(),
            parts == entries_of(blob@, 32),
            blob@.len() == count * 32,
            fields@.len() == i,
            all_or_first(stored_entries(parts, name@).take(i as int)) == Ok::<Seq<Bytes>, Fault>(
                reprs_of(fields@),
            ),
        decreases entries.len() - i,
    {
        let place = Message::new(name).text("[").number(i as i128).text("]").into_text();
        let decoded = field_from_bytes(entries[i].as_slice(), place.as_str());
        proof {
            lemma_next_item(stored_entries(parts, name@), i as int, reprs_of(fields@));
        }
        match decoded {
            Ok(field) => {
                let ghost before = fields@;
                fields.push(field);
                assert(reprs_of(fields@) =~= reprs_of(before).push(field@));
            },
            Err(error) => {
                return Err(error);
            },
        }
        i += 1;
    }
    assert(stored_entries(parts, name@).take(i as int) =~= stored_entries(parts, name@));
    Ok(fields)
}

/// A proof that a nullifier is not in the nullifier tree.
#[derive(Clone, Copy, Debug, PartialEq, Eq)]
pub struct ImtProofData {
    pub root: FieldElement,
    pub nf_bounds: [FieldElement; 3],
    pub leaf_pos: u32,
    pub path: [FieldElement; 29],
}

/// The meaning of an [`ImtProofData`].
#[verifier::ext_equal]
pub struct ImtProofModel {
    pub root: Bytes,
    pub nf_bounds: Seq<Bytes>,
    pub leaf_pos: u32,
    pub path: Seq<Bytes>,
}

impl Modeled for ImtProofData {
    type Model = ImtProofModel;

    open spec fn model(&self) -> ImtProofModel {
        ImtProofModel {
            root: self.root@,
            nf_bounds: reprs_of(self.nf_bounds@),
            leaf_pos: self.leaf_pos,
            path: reprs_of(self.path@),
        }
    }
}

/// Copies three field elements into an array.
pub fn three_fields(fields: &Vec<FieldElement>) -> (r: [FieldElement; 3])
    requires
        fields@.len() == 3,
    ensures
        r@ == fields@,
{
    let r = [fields[0], fields[1], fields[2]];
    assert(r@ =~= fields@);
    r
}

/// Copies twenty-nine field elements into an array.
pub fn path_fields(fields: &Vec<FieldElement>) -> (r: [FieldElement; 29])
    requires
        fields@.len() == 29,
    ensures
        r@ == fields@,
{
    let first = fields[0];
    let mut r: [FieldElement; 29] = [first; 29];
    let mut i: usize = 0;
    while i < 29
        invariant
            i <= 29,
            fields@.len() == 29,
            forall|j: int| 0 <= j < i ==> r@[j] == fields@[j],
        decreases 29 - i,
    {
        r[i] = fields[i];
        i += 1;
    }
    assert(r@ =~= fields@);
    r
}

} // verus!
