//! Byte strings: comparison, little-endian integers, and flat blobs made of
//! equally long entries.

use vstd::prelude::*;
use vstd::arithmetic::power::pow;

verus! {

/// Compares two byte strings.
pub fn bytes_eq(a: &[u8], b: &[u8]) -> (r: bool)
    ensures
        r == (a@ == b@),
{
    if a.len() != b.len() {
        return false;
    }
    let mut i: usize = 0;
    while i < a.len()
        invariant
            i <= a.len(),
            a.len() == b.len(),
            forall|j: int| 0 <= j < i ==> a@[j] == b@[j],
        decreases a.len() - i,
    {
        if a[i] != b[i] {
            return false;
        }
        i += 1;
    }
    assert(a@ =~= b@);
    true
}

/// Appends a byte string to a vector.
pub fn append_bytes(out: &mut Vec<u8>, part: &[u8])
    ensures
        final(out)@ == old(out)@ + part@,
{
    let ghost before = out@;
    let mut i: usize = 0;
    while i < part.len()
        invariant
            i <= part.len(),
            out@ == before + part@.take(i as int),
        decreases part.len() - i,
    {
        out.push(part[i]);
        i += 1;
        assert(out@ =~= before + part@.take(i as int));
    }
    assert(part@.take(i as int) =~= part@);
}

/// Copies a byte string.
pub fn copy_bytes(part: &[u8]) -> (r: Vec<u8>)
    ensures
        r@ == part@,
{
    let mut out: Vec<u8> = Vec::new();
    append_bytes(&mut out, part);
    assert(out@ =~= part@);
    out
}

/// Copies the bytes from `from` up to `to`.
pub fn copy_range(part: &[u8], from: usize, to: usize) -> (r: Vec<u8>)
    requires
        from <= to <= part@.len(),
    ensures
        r@ == part@.subrange(from as int, to as int),
{
    let mut out: Vec<u8> = Vec::new();
    let mut i: usize = from;
    while i < to
        invariant
            from <= i <= to <= part@.len(),
            out@ == part@.subrange(from as int, i as int),
        decreases to - i,
    {
        out.push(part[i]);
        i += 1;
        assert(out@ =~= part@.subrange(from as int, i as int));
    }
    out
}

/// The contents of a list of byte strings.
pub open spec fn parts_of(parts: Seq<Vec<u8>>) -> Seq<Seq<u8>> {
    parts.map_values(|part: Vec<u8>| part@)
}

/// All byte strings of a list, one behind the other.
pub open spec fn joined(parts: Seq<Seq<u8>>) -> Seq<u8>
    decreases parts.len(),
{
    if parts.len() == 0 {
        Seq::empty()
    } else {
        joined(parts.drop_last()) + parts.last()
    }
}

/// Writes the byte strings of a list one behind the other.
pub fn join_bytes(parts: &[Vec<u8>]) -> (r: Vec<u8>)
    ensures
        r@ == joined(parts_of(parts@)),
{
    let mut out: Vec<u8> = Vec::new();
    let mut i: usize = 0;
    while i < parts.len()
        invariant
            i <= parts.len(),
            out@ == joined(parts_of(parts@.take(i as int))),
        decreases parts.len() - i,
    {
        append_bytes(&mut out, parts[i].as_slice());
        assert(parts_of(parts@.take(i + 1)).drop_last() =~= parts_of(parts@.take(i as int)));
        i += 1;
    }
    assert(parts@.take(i as int) =~= parts@);
    out
}

/// The entries of a blob that holds entries of `width` bytes each.
pub open spec fn entries_of(blob: Seq<u8>, width: nat) -> Seq<Seq<u8>>
    recommends
        width > 0,
        blob.len() % width == 0,
{
    Seq::new(blob.len() / width, |i: int| blob.subrange(i * width, (i + 1) * width))
}

/// Splits a blob into entries of `width` bytes each.
pub fn split_entries(blob: &[u8], width: usize) -> (r: Vec<Vec<u8>>)
    requires
        width > 0,
        blob@.len() % (width as nat) == 0,
    ensures
        parts_of(r@) == entries_of(blob@, width as nat),
{
    let mut out: Vec<Vec<u8>> = Vec::new();
    let mut at: usize = 0;
    let ghost n: int = blob@.len() as int / width as int;
    proof {
        vstd::arithmetic::div_mod::lemma_fundamental_div_mod(
            blob@.len() as int,
            width as int,
        );
        vstd::arithmetic::div_mod::lemma_div_pos_is_pos(blob@.len() as int, width as int);
        assert(width * n == n * width) by (nonlinear_arith);
    }
    while at < blob.len()
        invariant
            width > 0,
            n >= 0,
            blob@.len() == n * width,
            n == blob@.len() as int / width as int,
            at <= blob@.len(),
            out@.len() <= n,
            at == out@.len() * width,
            forall|j: int|
                #![trigger out@[j]]
                0 <= j < out@.len() ==> out@[j]@ == blob@.subrange(j * width, (j + 1) * width),
        decreases blob.len() - at,
    {
        let ghost i: int = out@.len() as int;
        proof {
            if i >= n {
                assert(i * width >= n * width) by (nonlinear_arith)
                    requires
                        i >= n,
                        width > 0,
                ;
            }
            assert((i + 1) * width == i * width + width) by (nonlinear_arith);
            assert((i + 1) * width <= n * width) by (nonlinear_arith)
                requires
                    i + 1 <= n,
                    width > 0,
            ;
        }
        let entry = copy_range(blob, at, at + width);
        out.push(entry);
        at += width;
    }
    proof {
        let len = out@.len() as int;
        if len < n {
            assert(len * width < n * width) by (nonlinear_arith)
                requires
                    len < n,
                    width > 0,
            ;
        }
        assert(parts_of(out@) =~= entries_of(blob@, width as nat));
    }
    out
}

/// Byte strings are joined in their order: joining two lists joins what each
/// of them joins to, and one byte string joins to itself.
pub proof fn law_joined_in_order(part: Seq<u8>, some: Seq<Seq<u8>>, more: Seq<Seq<u8>>)
    ensures
        joined(some + more) == joined(some) + joined(more),
        joined(seq![part]) == part,
        joined(Seq::empty()) == Seq::<u8>::empty(),
    decreases more.len(),
{
    let one = seq![part];
    assert(one.drop_last() =~= Seq::empty());
    reveal_with_fuel(joined, 2);
    assert(joined(one) =~= part);
    if more.len() == 0 {
        assert(some + more =~= some);
        assert(joined(some) + joined(more) =~= joined(some));
    } else {
        let front = more.drop_last();
        law_joined_in_order(part, some, front);
        assert((some + more).drop_last() =~= some + front);
        assert(joined(some) + (joined(front) + more.last()) =~= (joined(some) + joined(front))
            + more.last());
    }
}

/// Entry by entry, a blob is cut from its front.
pub proof fn law_entries_are_pieces(blob: Seq<u8>, width: nat, i: int)
    requires
        width > 0,
        0 <= i < blob.len() / width,
    ensures
        entries_of(blob, width).len() == blob.len() / width,
        entries_of(blob, width)[i] == blob.subrange(i * width, i * width + width),
{
    assert((i + 1) * width == i * width + width) by (nonlinear_arith);
}

/// A blob of equally long entries splits into the entries it was joined from.
pub proof fn lemma_split_after_join(parts: Seq<Seq<u8>>, width: nat)
    requires
        width > 0,
        forall|i: int| 0 <= i < parts.len() ==> (#[trigger] parts[i]).len() == width,
    ensures
        joined(parts).len() == parts.len() * width,
        joined(parts).len() % width == 0,
        entries_of(joined(parts), width) == parts,
    decreases parts.len(),
{
    lemma_joined_entries(parts, width);
    let n = parts.len();
    vstd::arithmetic::div_mod::lemma_mod_multiples_basic(n as int, width as int);
    vstd::arithmetic::div_mod::lemma_div_by_multiple(n as int, width as int);
    assert(joined(parts).len() / width == n);
    assert(entries_of(joined(parts), width) =~= parts);
}

/// The entries of a blob, joined again, are the blob.
pub proof fn lemma_join_after_split(blob: Seq<u8>, width: nat)
    requires
        width > 0,
        blob.len() % width == 0,
    ensures
        joined(entries_of(blob, width)) == blob,
    decreases blob.len(),
{
    let n = blob.len() / width;
    vstd::arithmetic::div_mod::lemma_fundamental_div_mod(blob.len() as int, width as int);
    assert(blob.len() == n * width) by (nonlinear_arith)
        requires
            blob.len() == width * n,
    ;
    if n == 0 {
        assert(n * width == 0) by (nonlinear_arith)
            requires
                n == 0,
        ;
        assert(entries_of(blob, width) =~= Seq::empty());
        assert(joined(entries_of(blob, width)) =~= blob);
    } else {
        assert((n - 1) * width + width == n * width) by (nonlinear_arith);
        assert(0 <= (n - 1) * width) by (nonlinear_arith)
            requires
                n > 0,
        ;
        let front = blob.take((n - 1) * width);
        vstd::arithmetic::div_mod::lemma_mod_multiples_basic(n - 1, width as int);
        vstd::arithmetic::div_mod::lemma_div_by_multiple(n - 1, width as int);
        lemma_join_after_split(front, width);
        let entries = entries_of(blob, width);
        assert forall|i: int| 0 <= i < n - 1 implies #[trigger] entries[i] == entries_of(
            front,
            width,
        )[i] by {
            assert(0 <= i * width <= (i + 1) * width <= (n - 1) * width) by (nonlinear_arith)
                requires
                    0 <= i < n - 1,
                    width > 0,
            ;
            assert(blob.subrange(i * width, (i + 1) * width) =~= front.subrange(
                i * width,
                (i + 1) * width,
            ));
        }
        assert(entries.drop_last() =~= entries_of(front, width));
        assert(joined(entries) =~= blob);
    }
}

proof fn lemma_joined_entries(parts: Seq<Seq<u8>>, width: nat)
    requires
        width > 0,
        forall|i: int| 0 <= i < parts.len() ==> (#[trigger] parts[i]).len() == width,
    ensures
        joined(parts).len() == parts.len() * width,
        forall|i: int|
            0 <= i < parts.len() ==> #[trigger] parts[i] == joined(parts).subrange(
                i * width,
                (i + 1) * width,
            ),
    decreases parts.len(),
{
    if parts.len() > 0 {
        let n = parts.len() as int;
        let front = parts.drop_last();
        lemma_joined_entries(front, width);
        assert((n - 1) * width + width == n * width) by (nonlinear_arith);
        assert forall|i: int| 0 <= i < n implies #[trigger] parts[i] == joined(parts).subrange(
            i * width,
            (i + 1) * width,
        ) by {
            if i < n - 1 {
                assert(parts[i] == front[i]);
                assert(0 <= i * width <= (i + 1) * width <= (n - 1) * width)
                    by (nonlinear_arith)
                    requires
                        0 <= i < n - 1,
                        width > 0,
                ;
                assert(joined(parts).subrange(i * width, (i + 1) * width) =~= joined(
                    front,
                ).subrange(i * width, (i + 1) * width));
            } else {
                assert(joined(parts).subrange(i * width, (i + 1) * width) =~= parts[i]);
            }
        }
    }
}

/// The `len` low-order bytes of `n`, least significant byte first.
pub open spec fn le_bytes(n: nat, len: nat) -> Seq<u8>
    decreases len,
{
    if len == 0 {
        Seq::empty()
    } else {
        seq![(n % 256) as u8] + le_bytes(n / 256, (len - 1) as nat)
    }
}

/// The number that a little-endian byte string stands for.
pub open spec fn le_value(bytes: Seq<u8>) -> nat
    decreases bytes.len(),
{
    if bytes.len() == 0 {
        0
    } else {
        bytes[0] as nat + 256 * le_value(bytes.skip(1))
    }
}

/// The byte string of a number that fits reads back as that number.
pub proof fn lemma_le_value_of_bytes(n: nat, len: nat)
    requires
        n < pow(256, len),
    ensures
        le_bytes(n, len).len() == len,
        le_value(le_bytes(n, len)) == n,
    decreases len,
{
    reveal(pow);
    if len > 0 {
        let rest = (len - 1) as nat;
        assert(pow(256, len) == 256 * pow(256, rest));
        assert(n / 256 < pow(256, rest));
        lemma_le_value_of_bytes(n / 256, rest);
        assert(le_bytes(n, len).skip(1) =~= le_bytes(n / 256, rest));
    }
}

/// The number that a byte string stands for is written as that byte string.
pub proof fn lemma_le_bytes_of_value(bytes: Seq<u8>)
    ensures
        le_bytes(le_value(bytes), bytes.len()) == bytes,
        le_value(bytes) < pow(256, bytes.len()),
    decreases bytes.len(),
{
    reveal(pow);
    if bytes.len() > 0 {
        let rest = bytes.skip(1);
        lemma_le_bytes_of_value(rest);
        let n = le_value(bytes);
        assert(n % 256 == bytes[0] as nat);
        assert(n / 256 == le_value(rest));
        assert(pow(256, bytes.len()) == 256 * pow(256, rest.len()));
        assert(le_bytes(n, bytes.len()) =~= bytes);
    } else {
        assert(le_bytes(0, 0) =~= bytes);
    }
}

/// Each byte of a number counts 256 times as much as the one before it.
pub proof fn law_little_endian(n: nat, len: nat, k: nat)
    requires
        k < len,
    ensures
        le_bytes(n, len).len() == len,
        le_bytes(n, len)[k as int] == (n / (pow(256, k) as nat)) % 256,
    decreases len,
{
    reveal(pow);
    lemma_le_len(n, len);
    if k > 0 {
        let rest = (len - 1) as nat;
        let before = (k - 1) as nat;
        law_little_endian(n / 256, rest, before);
        vstd::arithmetic::power::lemma_pow_positive(256, before);
        vstd::arithmetic::div_mod::lemma_div_denominator(n as int, 256, pow(256, before));
        assert(le_bytes(n, len)[k as int] == le_bytes(n / 256, rest)[before as int]);
    } else {
        vstd::arithmetic::power::lemma_pow0(256);
        assert(n / 1 == n);
    }
}

proof fn lemma_le_len(n: nat, len: nat)
    ensures
        le_bytes(n, len).len() == len,
    decreases len,
{
    if len > 0 {
        lemma_le_len(n / 256, (len - 1) as nat);
    }
}

/// Two numbers that fit and have the same byte string are equal.
pub proof fn lemma_le_bytes_injective(a: nat, b: nat, len: nat)
    requires
        a < pow(256, len),
        b < pow(256, len),
        le_bytes(a, len) == le_bytes(b, len),
    ensures
        a == b,
{
    lemma_le_value_of_bytes(a, len);
    lemma_le_value_of_bytes(b, len);
}

/// Four bytes hold every `u32`, eight bytes every `u64`.
pub proof fn lemma_le_widths()
    ensures
        pow(256, 4) == 0x1_0000_0000,
        pow(256, 8) == 0x1_0000_0000_0000_0000,
{
    reveal_with_fuel(pow, 9);
}

/// Appends the `len` low-order bytes of `n`, least significant byte first.
pub fn append_le(out: &mut Vec<u8>, n: u64, len: usize)
    ensures
        final(out)@ == old(out)@ + le_bytes(n as nat, len as nat),
    decreases len,
{
    if len == 0 {
        assert(out@ =~= out@ + le_bytes(n as nat, 0));
    } else {
        let ghost before = out@;
        out.push((n % 256) as u8);
        append_le(out, n / 256, len - 1);
        assert(out@ =~= before + le_bytes(n as nat, len as nat));
    }
}

/// Reads eight bytes, least significant byte first.
pub fn read_le_u64(bytes: &[u8], from: usize) -> (r: u64)
    requires
        from + 8 <= bytes@.len(),
    ensures
        r as nat == le_value(bytes@.subrange(from as int, from + 8)),
{
    let mut value: u64 = 0;
    let mut i: usize = 8;
    let ghost field = bytes@.subrange(from as int, from + 8);
    proof {
        assert(field.skip(8) =~= Seq::<u8>::empty());
        lemma_le_widths();
    }
    while i > 0
        invariant
            0 <= i <= 8,
            from + 8 <= bytes.len(),
            field == bytes@.subrange(from as int, from + 8),
            value as nat == le_value(field.skip(i as int)),
            pow(256, 8) == 0x1_0000_0000_0000_0000,
        decreases i,
    {
        let ghost tail = field.skip(i - 1);
        proof {
            assert(tail.skip(1) =~= field.skip(i as int));
            assert(tail[0] == field[i - 1]);
            lemma_le_bytes_of_value(tail);
            vstd::arithmetic::power::lemma_pow_increases(256, tail.len(), 8);
            assert(le_value(tail) == tail[0] as nat + 256 * le_value(tail.skip(1)));
        }
        value = value * 256 + bytes[from + i - 1] as u64;
        i -= 1;
    }
    assert(field.skip(0) =~= field);
    value
}

} // verus!
