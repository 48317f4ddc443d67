//! What bundles store of notes: positions, identities and padding secrets.

use vstd::prelude::*;
use vstd::utf8::encode_utf8;

use crate::bytes::{
    append_bytes, append_le, copy_range, entries_of, joined, le_bytes, le_value,
    lemma_join_after_split, lemma_le_bytes_injective, lemma_le_bytes_of_value,
    lemma_le_value_of_bytes, lemma_le_widths, lemma_split_after_join, read_le_u64,
};
use crate::text::decimal;
use crate::types::{
    answers, notes_of, Bytes, Fault, Message, Modeled, NoteInfo, NoteModel, VotingError,
};

verus! {

/// The BLAKE2b hash of a byte string with an output of 32 bytes, without key,
/// salt and personalization.
pub uninterp spec fn blake2b_256(input: Seq<u8>) -> [u8; 32];

/// Hashes with `blake2b_simd`: a state with the default parameters and a hash
/// length of 32 is fed the input and finalized. The digest is a function of
/// the input alone and is 32 bytes long.
#[verifier::external_body]
fn blake2b_256_of(input: &[u8]) -> (digest: [u8; 32])
    ensures
        digest@ == blake2b_256(input@)@,
{
    let mut digest = [0u8; 32];
    let hash = blake2b_simd::Params::new().hash_length(32).to_state().update(input).finalize();
    digest.copy_from_slice(hash.as_bytes());
    digest
}

/// A byte string behind its length.
pub open spec fn framed(value: Bytes) -> Bytes {
    le_bytes(value.len(), 8) + value
}

/// The bytes that identify a note.
pub open spec fn note_preimage(note: NoteModel) -> Bytes {
    encode_utf8("zcash-voting-note-identity-v1"@) + le_bytes(note.position as nat, 8) + le_bytes(
        note.value as nat,
        8,
    ) + le_bytes(note.scope as nat, 4) + framed(note.commitment) + framed(note.nullifier) + framed(
        note.diversifier,
    ) + framed(note.rho) + framed(note.rseed) + framed(encode_utf8(note.ufvk_str))
}

/// The identity of a note.
pub open spec fn note_identity(note: NoteModel) -> Bytes {
    blake2b_256(note_preimage(note))@
}

fn append_framed(out: &mut Vec<u8>, value: &[u8])
    ensures
        final(out)@ == old(out)@ + framed(value@),
{
    let ghost before = out@;
    append_le(out, value.len() as u64, 8);
    append_bytes(out, value);
    assert(out@ =~= before + framed(value@));
}

/// Computes the identity of a note.
pub fn note_identity_hash(note: &NoteInfo) -> (hash: [u8; 32])
    ensures
        hash@ == note_identity(note.model()),
{
    let mut preimage: Vec<u8> = Vec::new();
    append_bytes(&mut preimage, "zcash-voting-note-identity-v1".as_bytes());
    assert(preimage@ =~= encode_utf8("zcash-voting-note-identity-v1"@));
    append_le(&mut preimage, note.position, 8);
    append_le(&mut preimage, note.value, 8);
    append_le(&mut preimage, note.scope as u64, 4);
    append_framed(&mut preimage, note.commitment.as_slice());
    append_framed(&mut preimage, note.nullifier.as_slice());
    append_framed(&mut preimage, note.diversifier.as_slice());
    append_framed(&mut preimage, note.rho.as_slice());
    append_framed(&mut preimage, note.rseed.as_slice());
    append_framed(&mut preimage, note.ufvk_str.as_str().as_bytes());
    blake2b_256_of(preimage.as_slice())
}

/// Two framed byte strings, each followed by more bytes, agree only if the byte
/// strings and what follows them agree.
proof fn lemma_framed_prefix(a: Bytes, a_rest: Bytes, b: Bytes, b_rest: Bytes)
    requires
        a.len() < 0x1_0000_0000_0000_0000,
        b.len() < 0x1_0000_0000_0000_0000,
        framed(a) + a_rest == framed(b) + b_rest,
    ensures
        a == b,
        a_rest == b_rest,
{
    lemma_le_widths();
    lemma_le_value_of_bytes(a.len(), 8);
    lemma_le_value_of_bytes(b.len(), 8);
    let left = framed(a) + a_rest;
    let right = framed(b) + b_rest;
    assert(left.take(8) =~= le_bytes(a.len(), 8));
    assert(right.take(8) =~= le_bytes(b.len(), 8));
    assert(left.subrange(8, 8 + a.len() as int) =~= a);
    assert(right.subrange(8, 8 + b.len() as int) =~= b);
    assert(left.skip(8 + a.len() as int) =~= a_rest);
    assert(right.skip(8 + b.len() as int) =~= b_rest);
}

/// Two equally long byte strings, each followed by more bytes, agree only if
/// the byte strings and what follows them agree.
proof fn lemma_same_width_prefix(a: Bytes, a_rest: Bytes, b: Bytes, b_rest: Bytes)
    requires
        a.len() == b.len(),
        a + a_rest == b + b_rest,
    ensures
        a == b,
        a_rest == b_rest,
{
    assert((a + a_rest).take(a.len() as int) =~= a);
    assert((b + b_rest).take(b.len() as int) =~= b);
    assert((a + a_rest).skip(a.len() as int) =~= a_rest);
    assert((b + b_rest).skip(b.len() as int) =~= b_rest);
}


/// The framed fields of a note, each with those behind it.
spec fn framed_tails(note: NoteModel) -> (Bytes, Bytes, Bytes, Bytes, Bytes, Bytes) {
    let t6 = framed(encode_utf8(note.ufvk_str));
    let t5 = framed(note.rseed) + t6;
    let t4 = framed(note.rho) + t5;
    let t3 = framed(note.diversifier) + t4;
    let t2 = framed(note.nullifier) + t3;
    let t1 = framed(note.commitment) + t2;
    (t1, t2, t3, t4, t5, t6)
}

proof fn lemma_regroup(a: Bytes, b: Bytes, c: Bytes)
    ensures
        (a + b) + c == a + (b + c),
{
    assert((a + b) + c =~= a + (b + c));
}

proof fn lemma_preimage_grouped(note: NoteModel)
    ensures
        note_preimage(note) == encode_utf8("zcash-voting-note-identity-v1"@) + (le_bytes(
            note.position as nat,
            8,
        ) + (le_bytes(note.value as nat, 8) + (le_bytes(note.scope as nat, 4) + framed_tails(
            note,
        ).0))),
{
    let f0 = encode_utf8("zcash-voting-note-identity-v1"@);
    let f1 = le_bytes(note.position as nat, 8);
    let f2 = le_bytes(note.value as nat, 8);
    let f3 = le_bytes(note.scope as nat, 4);
    let f4 = framed(note.commitment);
    let f5 = framed(note.nullifier);
    let f6 = framed(note.diversifier);
    let f7 = framed(note.rho);
    let f8 = framed(note.rseed);
    let (t1, t2, t3, t4, t5, t6) = framed_tails(note);
    lemma_regroup(f0 + f1 + f2 + f3 + f4 + f5 + f6 + f7, f8, t6);
    lemma_regroup(f0 + f1 + f2 + f3 + f4 + f5 + f6, f7, t5);
    lemma_regroup(f0 + f1 + f2 + f3 + f4 + f5, f6, t4);
    lemma_regroup(f0 + f1 + f2 + f3 + f4, f5, t3);
    lemma_regroup(f0 + f1 + f2 + f3, f4, t2);
    lemma_regroup(f0 + f1 + f2, f3, t1);
    lemma_regroup(f0 + f1, f2, f3 + t1);
    lemma_regroup(f0, f1, f2 + (f3 + t1));
}

/// The bytes that identify a note determine every field of it: notes that
/// differ anywhere are hashed from different bytes. The lengths of the fields
/// fit in 64 bits, as those of every vector and string do.
pub proof fn law_note_preimage_injective(a: NoteModel, b: NoteModel)
    requires
        a.commitment.len() < 0x1_0000_0000_0000_0000,
        a.nullifier.len() < 0x1_0000_0000_0000_0000,
        a.diversifier.len() < 0x1_0000_0000_0000_0000,
        a.rho.len() < 0x1_0000_0000_0000_0000,
        a.rseed.len() < 0x1_0000_0000_0000_0000,
        encode_utf8(a.ufvk_str).len() < 0x1_0000_0000_0000_0000,
        b.commitment.len() < 0x1_0000_0000_0000_0000,
        b.nullifier.len() < 0x1_0000_0000_0000_0000,
        b.diversifier.len() < 0x1_0000_0000_0000_0000,
        b.rho.len() < 0x1_0000_0000_0000_0000,
        b.rseed.len() < 0x1_0000_0000_0000_0000,
        encode_utf8(b.ufvk_str).len() < 0x1_0000_0000_0000_0000,
        note_preimage(a) == note_preimage(b),
    ensures
        a == b,
{
    lemma_le_widths();
    let domain = encode_utf8("zcash-voting-note-identity-v1"@);
    lemma_le_value_of_bytes(a.position as nat, 8);
    lemma_le_value_of_bytes(b.position as nat, 8);
    lemma_le_value_of_bytes(a.value as nat, 8);
    lemma_le_value_of_bytes(b.value as nat, 8);
    lemma_le_value_of_bytes(a.scope as nat, 4);
    lemma_le_value_of_bytes(b.scope as nat, 4);
    let none: Bytes = Seq::empty();
    let (a1, a2, a3, a4, a5, a6) = framed_tails(a);
    let (b1, b2, b3, b4, b5, b6) = framed_tails(b);
    let ac = le_bytes(a.scope as nat, 4) + a1;
    let bc = le_bytes(b.scope as nat, 4) + b1;
    let av = le_bytes(a.value as nat, 8) + ac;
    let bv = le_bytes(b.value as nat, 8) + bc;
    let ap = le_bytes(a.position as nat, 8) + av;
    let bp = le_bytes(b.position as nat, 8) + bv;
    lemma_preimage_grouped(a);
    lemma_preimage_grouped(b);
    lemma_same_width_prefix(domain, ap, domain, bp);
    lemma_same_width_prefix(le_bytes(a.position as nat, 8), av, le_bytes(b.position as nat, 8), bv);
    lemma_same_width_prefix(le_bytes(a.value as nat, 8), ac, le_bytes(b.value as nat, 8), bc);
    lemma_same_width_prefix(le_bytes(a.scope as nat, 4), a1, le_bytes(b.scope as nat, 4), b1);
    lemma_framed_prefix(a.commitment, a2, b.commitment, b2);
    lemma_framed_prefix(a.nullifier, a3, b.nullifier, b3);
    lemma_framed_prefix(a.diversifier, a4, b.diversifier, b4);
    lemma_framed_prefix(a.rho, a5, b.rho, b5);
    lemma_framed_prefix(a.rseed, a6, b.rseed, b6);
    assert(a6 =~= framed(encode_utf8(a.ufvk_str)) + none);
    assert(b6 =~= framed(encode_utf8(b.ufvk_str)) + none);
    lemma_framed_prefix(encode_utf8(a.ufvk_str), none, encode_utf8(b.ufvk_str), none);
    lemma_le_bytes_injective(a.position as nat, b.position as nat, 8);
    lemma_le_bytes_injective(a.value as nat, b.value as nat, 8);
    lemma_le_bytes_injective(a.scope as nat, b.scope as nat, 4);
    vstd::utf8::encode_utf8_decode_utf8(a.ufvk_str);
    vstd::utf8::encode_utf8_decode_utf8(b.ufvk_str);
}

/// A framed byte string in front of others is read back: its length stands in
/// the first eight bytes, the byte string behind it.
proof fn lemma_frame_read_back(all: Bytes, at: int, value: Bytes, rest: Bytes)
    requires
        value.len() < 0x1_0000_0000_0000_0000,
        0 <= at <= all.len(),
        all.skip(at) == framed(value) + rest,
    ensures
        le_value(all.subrange(at, at + 8)) == value.len(),
        all.subrange(at + 8, at + 8 + value.len()) == value,
        at + 8 + value.len() <= all.len(),
        all.skip(at + 8 + value.len()) == rest,
{
    lemma_le_widths();
    lemma_le_value_of_bytes(value.len(), 8);
    let tail = framed(value) + rest;
    assert(all.subrange(at, at + 8) =~= tail.take(8));
    assert(tail.take(8) =~= le_bytes(value.len(), 8));
    assert(all.subrange(at + 8, at + 8 + value.len()) =~= tail.subrange(8, 8 + value.len() as int));
    assert(tail.subrange(8, 8 + value.len() as int) =~= value);
    assert(all.skip(at + 8 + value.len()) =~= tail.skip(8 + value.len() as int));
    assert(tail.skip(8 + value.len() as int) =~= rest);
}

/// What identifies a note can be read back from the bytes that are hashed. They
/// begin with the name of the format, go on with the position, the value and
/// the scope in little-endian order, and end with the commitment, the nullifier,
/// the diversifier, `rho`, `rseed` and the viewing key, each behind its length.
/// The identity is the hash of these bytes and of nothing else.
pub proof fn law_note_preimage_read_back(note: NoteModel)
    requires
        note.commitment.len() < 0x1_0000_0000_0000_0000,
        note.nullifier.len() < 0x1_0000_0000_0000_0000,
        note.diversifier.len() < 0x1_0000_0000_0000_0000,
        note.rho.len() < 0x1_0000_0000_0000_0000,
        note.rseed.len() < 0x1_0000_0000_0000_0000,
        encode_utf8(note.ufvk_str).len() < 0x1_0000_0000_0000_0000,
    ensures
        ({
            let bytes = note_preimage(note);
            let name = encode_utf8("zcash-voting-note-identity-v1"@);
            let at = name.len() as int;
            let key = encode_utf8(note.ufvk_str);
            let commitment = at + 20;
            let nullifier = commitment + 8 + note.commitment.len();
            let diversifier = nullifier + 8 + note.nullifier.len();
            let rho = diversifier + 8 + note.diversifier.len();
            let rseed = rho + 8 + note.rho.len();
            let ufvk = rseed + 8 + note.rseed.len();
            &&& note_identity(note) == blake2b_256(bytes)@
            &&& bytes.take(at) == name
            &&& le_value(bytes.subrange(at, at + 8)) == note.position
            &&& le_value(bytes.subrange(at + 8, at + 16)) == note.value
            &&& le_value(bytes.subrange(at + 16, at + 20)) == note.scope
            &&& le_value(bytes.subrange(commitment, commitment + 8)) == note.commitment.len()
            &&& bytes.subrange(commitment + 8, nullifier) == note.commitment
            &&& le_value(bytes.subrange(nullifier, nullifier + 8)) == note.nullifier.len()
            &&& bytes.subrange(nullifier + 8, diversifier) == note.nullifier
            &&& le_value(bytes.subrange(diversifier, diversifier + 8)) == note.diversifier.len()
            &&& bytes.subrange(diversifier + 8, rho) == note.diversifier
            &&& le_value(bytes.subrange(rho, rho + 8)) == note.rho.len()
            &&& bytes.subrange(rho + 8, rseed) == note.rho
            &&& le_value(bytes.subrange(rseed, rseed + 8)) == note.rseed.len()
            &&& bytes.subrange(rseed + 8, ufvk) == note.rseed
            &&& le_value(bytes.subrange(ufvk, ufvk + 8)) == key.len()
            &&& bytes.skip(ufvk + 8) == key
        }),
{
    let bytes = note_preimage(note);
    let name = encode_utf8("zcash-voting-note-identity-v1"@);
    let at = name.len() as int;
    let key = encode_utf8(note.ufvk_str);
    let (t1, t2, t3, t4, t5, t6) = framed_tails(note);
    let none: Bytes = Seq::empty();
    let p = le_bytes(note.position as nat, 8);
    let v = le_bytes(note.value as nat, 8);
    let s = le_bytes(note.scope as nat, 4);
    lemma_le_widths();
    lemma_le_value_of_bytes(note.position as nat, 8);
    lemma_le_value_of_bytes(note.value as nat, 8);
    lemma_le_value_of_bytes(note.scope as nat, 4);
    lemma_preimage_grouped(note);
    assert(bytes == name + (p + (v + (s + t1))));
    assert(bytes.take(at) =~= name);
    assert(bytes.subrange(at, at + 8) =~= p);
    assert(bytes.subrange(at + 8, at + 16) =~= v);
    assert(bytes.subrange(at + 16, at + 20) =~= s);
    assert(bytes.skip(at + 20) =~= t1);
    let commitment = at + 20;
    let nullifier = commitment + 8 + note.commitment.len();
    let diversifier = nullifier + 8 + note.nullifier.len();
    let rho = diversifier + 8 + note.diversifier.len();
    let rseed = rho + 8 + note.rho.len();
    let ufvk = rseed + 8 + note.rseed.len();
    lemma_frame_read_back(bytes, commitment, note.commitment, t2);
    lemma_frame_read_back(bytes, nullifier, note.nullifier, t3);
    lemma_frame_read_back(bytes, diversifier, note.diversifier, t4);
    lemma_frame_read_back(bytes, rho, note.rho, t5);
    lemma_frame_read_back(bytes, rseed, note.rseed, t6);
    assert(t6 =~= framed(key) + none);
    lemma_frame_read_back(bytes, ufvk, key, none);
    assert(bytes.len() == ufvk + 8 + key.len()) by {
        assert(bytes.skip(ufvk + 8 + key.len()).len() == 0);
    }
    assert(bytes.skip(ufvk + 8) =~= bytes.subrange(ufvk + 8, ufvk + 8 + key.len()));
}

/// Note positions as entries of eight bytes.
pub open spec fn position_entries(positions: Seq<u64>) -> Seq<Bytes> {
    positions.map_values(|position: u64| le_bytes(position as nat, 8))
}

/// Note positions as a blob.
pub open spec fn positions_blob(positions: Seq<u64>) -> Bytes {
    joined(position_entries(positions))
}

/// The positions of notes.
pub open spec fn positions_of(notes: Seq<NoteModel>) -> Seq<u64> {
    notes.map_values(|note: NoteModel| note.position)
}

/// The identities of notes.
pub open spec fn identities_of(notes: Seq<NoteModel>) -> Seq<Bytes> {
    notes.map_values(|note: NoteModel| note_identity(note))
}

/// Writes note positions as a blob.
pub fn note_positions_blob(positions: &[u64]) -> (blob: Vec<u8>)
    ensures
        blob@ == positions_blob(positions@),
{
    let mut blob: Vec<u8> = Vec::new();
    let mut i: usize = 0;
    while i < positions.len()
        invariant
            i <= positions.len(),
            blob@ == positions_blob(positions@.take(i as int)),
        decreases positions.len() - i,
    {
        append_le(&mut blob, positions[i], 8);
        assert(position_entries(positions@.take(i + 1)).drop_last() =~= position_entries(
            positions@.take(i as int),
        ));
        i += 1;
    }
    assert(positions@.take(i as int) =~= positions@);
    blob
}

/// The positions of notes, in their order.
pub fn note_positions(notes: &[NoteInfo]) -> (positions: Vec<u64>)
    ensures
        positions@ == positions_of(notes_of(notes@)),
{
    let mut positions: Vec<u64> = Vec::new();
    let mut i: usize = 0;
    while i < notes.len()
        invariant
            i <= notes.len(),
            positions@ == positions_of(notes_of(notes@)).take(i as int),
        decreases notes.len() - i,
    {
        positions.push(notes[i].position);
        assert(positions@ =~= positions_of(notes_of(notes@)).take(i + 1));
        i += 1;
    }
    assert(positions@ =~= positions_of(notes_of(notes@)));
    positions
}

/// Writes the positions of notes as a blob.
pub fn note_positions_blob_for_notes(notes: &[NoteInfo]) -> (blob: Vec<u8>)
    ensures
        blob@ == positions_blob(positions_of(notes_of(notes@))),
{
    note_positions_blob(note_positions(notes).as_slice())
}

/// Writes the identities of notes as a blob.
pub fn note_identity_hashes_blob(notes: &[NoteInfo]) -> (blob: Vec<u8>)
    ensures
        blob@ == joined(identities_of(notes_of(notes@))),
{
    let mut blob: Vec<u8> = Vec::new();
    let mut i: usize = 0;
    while i < notes.len()
        invariant
            i <= notes.len(),
            blob@ == joined(identities_of(notes_of(notes@)).take(i as int)),
        decreases notes.len() - i,
    {
        let hash = note_identity_hash(&notes[i]);
        append_bytes(&mut blob, hash.as_slice());
        assert(identities_of(notes_of(notes@)).take(i + 1).drop_last() =~= identities_of(
            notes_of(notes@),
        ).take(i as int));
        i += 1;
    }
    assert(identities_of(notes_of(notes@)).take(i as int) =~= identities_of(notes_of(notes@)));
    blob
}

/// The note positions that a blob stores.
pub open spec fn stored_positions(blob: Bytes) -> Result<Seq<u64>, Fault> {
    if blob.len() % 8 != 0 {
        Err(
            Fault::Internal(
                "corrupt note_positions_blob: length "@ + decimal(blob.len() as int)
                    + " is not a multiple of 8"@,
            ),
        )
    } else {
        Ok(entries_of(blob, 8).map_values(|entry: Bytes| le_value(entry) as u64))
    }
}

/// Reads note positions from a blob.
pub fn decode_note_positions_blob(blob: &[u8]) -> (r: Result<Vec<u64>, VotingError>)
    ensures
        answers(r, stored_positions(blob@)),
{
    if blob.len() % 8 != 0 {
        return Err(
            Message::new("corrupt note_positions_blob: length ").number(blob.len() as i128).text(
                " is not a multiple of 8",
            ).internal(),
        );
    }
    let mut positions: Vec<u64> = Vec::new();
    let n: usize = blob.len() / 8;
    let mut i: usize = 0;
    while i < n
        invariant
            i <= n,
            n == blob@.len() / 8,
            blob@.len() == blob.len(),
            positions@.len() == i,
            forall|j: int|
                0 <= j < i ==> #[trigger] positions@[j] == le_value(
                    blob@.subrange(j * 8, (j + 1) * 8),
                ),
        decreases n - i,
    {
        positions.push(read_le_u64(blob, i * 8));
        i += 1;
    }
    assert(positions@ =~= entries_of(blob@, 8).map_values(|entry: Bytes| le_value(entry) as u64));
    Ok(positions)
}

/// Positions are read back from the blob that they are written to.
pub proof fn law_positions_round_trip(positions: Seq<u64>)
    ensures
        stored_positions(positions_blob(positions)) == Ok::<Seq<u64>, Fault>(positions),
{
    let entries = position_entries(positions);
    lemma_le_widths();
    assert forall|i: int| 0 <= i < entries.len() implies (#[trigger] entries[i]).len() == 8
        && le_value(entries[i]) == positions[i] by {
        lemma_le_value_of_bytes(positions[i] as nat, 8);
    }
    lemma_split_after_join(entries, 8);
    assert(entries.map_values(|entry: Bytes| le_value(entry) as u64) =~= positions);
}

/// A blob of positions that is read and written again is the same blob.
pub proof fn law_positions_blob_round_trip(blob: Bytes)
    requires
        stored_positions(blob) is Ok,
    ensures
        positions_blob(stored_positions(blob)->Ok_0) == blob,
{
    let entries = entries_of(blob, 8);
    let positions = stored_positions(blob)->Ok_0;
    lemma_le_widths();
    assert forall|i: int| 0 <= i < entries.len() implies #[trigger] position_entries(positions)[i]
        == entries[i] by {
        assert(entries[i].len() == 8);
        lemma_le_bytes_of_value(entries[i]);
    }
    assert(position_entries(positions) =~= entries);
    lemma_join_after_split(blob, 8);
}

/// The meaning of padded note secrets: pairs of `rho` and `rseed`.
pub open spec fn secrets_of(secrets: Seq<(Vec<u8>, Vec<u8>)>) -> Seq<(Bytes, Bytes)> {
    secrets.map_values(|secret: (Vec<u8>, Vec<u8>)| (secret.0@, secret.1@))
}

impl Modeled for Vec<(Vec<u8>, Vec<u8>)> {
    type Model = Seq<(Bytes, Bytes)>;

    open spec fn model(&self) -> Seq<(Bytes, Bytes)> {
        secrets_of(self@)
    }
}

/// Padded note secrets as entries.
pub open spec fn secret_entries(secrets: Seq<(Bytes, Bytes)>) -> Seq<Bytes> {
    secrets.map_values(|secret: (Bytes, Bytes)| secret.0 + secret.1)
}

/// Padded note secrets as a blob.
pub open spec fn secrets_blob(secrets: Seq<(Bytes, Bytes)>) -> Bytes {
    joined(secret_entries(secrets))
}

/// Writes padded note secrets as a blob.
pub fn encode_padded_note_secrets(secrets: &[(Vec<u8>, Vec<u8>)]) -> (blob: Vec<u8>)
    ensures
        blob@ == secrets_blob(secrets_of(secrets@)),
{
    let mut blob: Vec<u8> = Vec::new();
    let mut i: usize = 0;
    while i < secrets.len()
        invariant
            i <= secrets.len(),
            blob@ == joined(secret_entries(secrets_of(secrets@)).take(i as int)),
        decreases secrets.len() - i,
    {
        let ghost before = blob@;
        append_bytes(&mut blob, secrets[i].0.as_slice());
        append_bytes(&mut blob, secrets[i].1.as_slice());
        proof {
            let entries = secret_entries(secrets_of(secrets@));
            assert(entries.take(i + 1).drop_last() =~= entries.take(i as int));
            assert(blob@ =~= before + entries[i as int]);
        }
        i += 1;
    }
    proof {
        let entries = secret_entries(secrets_of(secrets@));
        assert(entries.take(i as int) =~= entries);
    }
    blob
}

/// The padded note secrets that a blob stores.
pub open spec fn stored_secrets(blob: Bytes) -> Result<Seq<(Bytes, Bytes)>, Fault> {
    if blob.len() % 64 != 0 {
        Err(
            Fault::Internal(
                "corrupt padded_note_secrets blob: length "@ + decimal(blob.len() as int)
                    + " is not a multiple of 64"@,
            ),
        )
    } else {
        Ok(
            entries_of(blob, 64).map_values(
                |entry: Bytes| (entry.subrange(0, 32), entry.subrange(32, 64)),
            ),
        )
    }
}

/// Reads padded note secrets from a blob.
pub fn decode_padded_note_secrets(blob: &[u8]) -> (r: Result<
    Vec<(Vec<u8>, Vec<u8>)>,
    VotingError,
>)
    ensures
        answers(r, stored_secrets(blob@)),
{
    if blob.len() % 64 != 0 {
        return Err(
            Message::new("corrupt padded_note_secrets blob: length ").number(
                blob.len() as i128,
            ).text(" is not a multiple of 64").internal(),
        );
    }
    let mut secrets: Vec<(Vec<u8>, Vec<u8>)> = Vec::new();
    let n: usize = blob.len() / 64;
    let mut i: usize = 0;
    while i < n
        invariant
            i <= n,
            n == blob@.len() / 64,
            blob@.len() % 64 == 0,
            blob@.len() == blob.len(),
            secrets@.len() == i,
            forall|j: int|
                0 <= j < i ==> (#[trigger] secrets@[j]).0@ == entries_of(blob@, 64)[j].subrange(
                    0,
                    32,
                ) && secrets@[j].1@ == entries_of(blob@, 64)[j].subrange(32, 64),
        decreases n - i,
    {
        let rho = copy_range(blob, i * 64, i * 64 + 32);
        let rseed = copy_range(blob, i * 64 + 32, i * 64 + 64);
        proof {
            let entry = entries_of(blob@, 64)[i as int];
            assert(rho@ =~= entry.subrange(0, 32));
            assert(rseed@ =~= entry.subrange(32, 64));
        }
        secrets.push((rho, rseed));
        i += 1;
    }
    assert(secrets.model() =~= entries_of(blob@, 64).map_values(
        |entry: Bytes| (entry.subrange(0, 32), entry.subrange(32, 64)),
    ));
    Ok(secrets)
}

/// Padded note secrets of 32 bytes each are read back from the blob that they
/// are written to.
pub proof fn law_secrets_round_trip(secrets: Seq<(Bytes, Bytes)>)
    requires
        forall|i: int|
            0 <= i < secrets.len() ==> (#[trigger] secrets[i]).0.len() == 32 && secrets[i].1.len()
                == 32,
    ensures
        stored_secrets(secrets_blob(secrets)) == Ok::<Seq<(Bytes, Bytes)>, Fault>(secrets),
{
    let entries = secret_entries(secrets);
    lemma_split_after_join(entries, 64);
    let parts = entries.map_values(
        |entry: Bytes| (entry.subrange(0, 32), entry.subrange(32, 64)),
    );
    assert forall|i: int| 0 <= i < secrets.len() implies #[trigger] parts[i] == secrets[i] by {
        assert(entries[i] == secrets[i].0 + secrets[i].1);
        assert(entries[i].subrange(0, 32) =~= secrets[i].0);
        assert(entries[i].subrange(32, 64) =~= secrets[i].1);
    }
    assert(parts =~= secrets);
}

/// A blob of padded note secrets that is read and written again is the same
/// blob.
pub proof fn law_secrets_blob_round_trip(blob: Bytes)
    requires
        stored_secrets(blob) is Ok,
    ensures
        secrets_blob(stored_secrets(blob)->Ok_0) == blob,
{
    let entries = entries_of(blob, 64);
    let secrets = stored_secrets(blob)->Ok_0;
    assert forall|i: int| 0 <= i < entries.len() implies #[trigger] secret_entries(secrets)[i]
        == entries[i] by {
        assert(entries[i].len() == 64);
        assert(entries[i].subrange(0, 32) + entries[i].subrange(32, 64) =~= entries[i]);
    }
    assert(secret_entries(secrets) =~= entries);
    lemma_join_after_split(blob, 64);
}

} // verus!
