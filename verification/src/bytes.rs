//! Byte-level helpers: little-endian integers and fixed-width fields.

use vstd::prelude::*;

verus! {

/// The number a byte string denotes when read as a little-endian integer:
/// the first byte is the least significant.
pub open spec fn le_value(bytes: Seq<u8>) -> nat
    decreases bytes.len(),
{
    if bytes.len() == 0 {
        0
    } else {
        bytes[0] as nat + 256 * le_value(bytes.drop_first())
    }
}

/// The `width`-byte little-endian encoding of `value`, truncated to the low
/// `width` bytes when `value` needs more.
pub open spec fn le_bytes(value: nat, width: nat) -> Seq<u8>
    decreases width,
{
    if width == 0 {
        Seq::empty()
    } else {
        seq![(value % 256) as u8] + le_bytes(value / 256, (width - 1) as nat)
    }
}

/// A byte string of `n` bytes denotes a number below `256^n`.
pub proof fn lemma_le_value_bound(bytes: Seq<u8>)
    ensures
        le_value(bytes) < vstd::arithmetic::power::pow(256, bytes.len()),
    decreases bytes.len(),
{
    vstd::arithmetic::power::lemma_pow0(256);
    if bytes.len() > 0 {
        lemma_le_value_bound(bytes.drop_first());
        vstd::arithmetic::power::lemma_pow1(256);
        vstd::arithmetic::power::lemma_pow_adds(256, 1, (bytes.len() - 1) as nat);
    }
}

/// Decoding what was encoded gives the value back, as far as it fits.
pub proof fn lemma_le_round_trip(value: nat, width: nat)
    ensures
        le_bytes(value, width).len() == width,
        le_value(le_bytes(value, width)) == value % (vstd::arithmetic::power::pow(
            256,
            width,
        ) as nat),
    decreases width,
{
    vstd::arithmetic::power::lemma_pow0(256);
    if width > 0 {
        let rest = le_bytes(value / 256, (width - 1) as nat);
        lemma_le_round_trip(value / 256, (width - 1) as nat);
        assert(le_bytes(value, width).drop_first() =~= rest);
        vstd::arithmetic::power::lemma_pow1(256);
        vstd::arithmetic::power::lemma_pow_adds(256, 1, (width - 1) as nat);
        vstd::arithmetic::power::lemma_pow_positive(256, (width - 1) as nat);
        let p = vstd::arithmetic::power::pow(256, (width - 1) as nat);
        assert(vstd::arithmetic::power::pow(256, width) == 256 * p);
        vstd::arithmetic::div_mod::lemma_breakdown(value as int, 256, p);
    }
}

/// Eight bytes hold every 64-bit number: what `u64_to_le` writes,
/// `u64_from_le` reads back.
pub proof fn lemma_u64_round_trip(value: u64)
    ensures
        le_bytes(value as nat, 8).len() == 8,
        le_value(le_bytes(value as nat, 8)) == value,
{
    lemma_le_round_trip(value as nat, 8);
    assert(vstd::arithmetic::power::pow(256, 8) == 0x1_0000_0000_0000_0000) by {
        reveal_with_fuel(vstd::arithmetic::power::pow, 9);
    }
    vstd::arithmetic::div_mod::lemma_small_mod(value as nat, 0x1_0000_0000_0000_0000);
}

/// Reads eight bytes as a little-endian integer.
pub fn u64_from_le(bytes: &[u8; 8]) -> (value: u64)
    ensures
        value == le_value(bytes@),
{
    let mut value: u64 = 0;
    let mut i: usize = 8;
    proof {
        assert(bytes@.subrange(8, 8) =~= Seq::<u8>::empty());
    }
    while i > 0
        invariant
            i <= 8,
            value == le_value(bytes@.subrange(i as int, 8)),
        decreases i,
    {
        i = i - 1;
        proof {
            let tail = bytes@.subrange(i as int, 8);
            assert(tail.drop_first() =~= bytes@.subrange(i + 1, 8));
            lemma_le_value_bound(tail);
            vstd::arithmetic::power::lemma_pow_increases(256, tail.len(), 8);
            assert(vstd::arithmetic::power::pow(256, 8) == 0x1_0000_0000_0000_0000) by {
                reveal_with_fuel(vstd::arithmetic::power::pow, 9);
            }
        }
        value = value * 256 + bytes[i] as u64;
    }
    proof {
        assert(bytes@.subrange(0, 8) =~= bytes@);
    }
    value
}

/// Writes `value` as eight little-endian bytes.
pub fn u64_to_le(value: u64) -> (bytes: [u8; 8])
    ensures
        bytes@ == le_bytes(value as nat, 8),
{
    let mut bytes = [0u8; 8];
    let mut rest: u64 = value;
    let mut i: usize = 0;
    let ghost mut done: Seq<u8> = Seq::empty();
    while i < 8
        invariant
            i <= 8,
            done.len() == i,
            forall|k: int| 0 <= k < i ==> bytes@[k] == done[k],
            le_bytes(value as nat, 8) == done + le_bytes(rest as nat, (8 - i) as nat),
        decreases 8 - i,
    {
        let low: u8 = (rest % 256) as u8;
        proof {
            assert(le_bytes(rest as nat, (8 - i) as nat) =~= seq![low] + le_bytes(
                (rest / 256) as nat,
                (8 - i - 1) as nat,
            ));
            assert(done + le_bytes(rest as nat, (8 - i) as nat) =~= done.push(low) + le_bytes(
                (rest / 256) as nat,
                (8 - i - 1) as nat,
            ));
            done = done.push(low);
        }
        bytes[i] = low;
        rest = rest / 256;
        i = i + 1;
    }
    proof {
        assert(le_bytes(rest as nat, 0) =~= Seq::<u8>::empty());
        assert(bytes@ =~= done);
    }
    bytes
}

/// Copies the `N` bytes of `data` that start at `at`.
pub fn read_array<const N: usize>(data: &[u8], at: usize) -> (field: [u8; N])
    requires
        at + N <= data@.len(),
    ensures
        field@ == data@.subrange(at as int, at + N),
{
    let len: usize = data.len();
    let mut field = [0u8; N];
    let mut i: usize = 0;
    while i < N
        invariant
            i <= N,
            at + N <= len == data@.len(),
            forall|k: int| 0 <= k < i ==> field@[k] == data@[at + k],
        decreases N - i,
    {
        field[i] = data[at + i];
        i = i + 1;
    }
    proof {
        assert(field@ =~= data@.subrange(at as int, at + N));
    }
    field
}

/// Appends every byte of `field` to `out`.
pub fn write_bytes(out: &mut Vec<u8>, field: &[u8])
    ensures
        final(out)@ == old(out)@ + field@,
{
    let mut i: usize = 0;
    while i < field.len()
        invariant
            i <= field@.len(),
            out@ == old(out)@ + field@.subrange(0, i as int),
        decreases field@.len() - i,
    {
        out.push(field[i]);
        proof {
            assert(field@.subrange(0, i + 1) =~= field@.subrange(0, i as int).push(field@[i as int]));
        }
        i = i + 1;
    }
    proof {
        assert(field@.subrange(0, i as int) =~= field@);
    }
}

} // verus!
