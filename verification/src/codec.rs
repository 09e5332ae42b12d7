//! Little-endian bytes: writing and reading the fields of canonical encodings.

use vstd::prelude::*;

verus! {

/// Bytes in an encoded `u64`.
pub const U64_LENGTH: usize = 8;

/// The eight bytes of `value`, least significant first.
pub open spec fn le(value: u64) -> Seq<u8> {
    vstd::bytes::spec_u64_to_le_bytes(value)
}

/// An encoded `u64` is eight bytes that say which number it is.
pub proof fn le_is_the_number(a: u64, b: u64)
    ensures
        le(a).len() == U64_LENGTH,
        le(a) == le(b) <==> a == b,
{
    vstd::bytes::lemma_auto_spec_u64_to_from_le_bytes();
    assert(vstd::bytes::spec_u64_from_le_bytes(le(a)) == a);
    assert(vstd::bytes::spec_u64_from_le_bytes(le(b)) == b);
}

/// Appends `more` to `bytes`.
pub fn push_all(bytes: &mut Vec<u8>, more: &[u8])
    ensures
        final(bytes)@ == old(bytes)@ + more@,
{
    bytes.extend_from_slice(more);
    assert(bytes@ =~= old(bytes)@ + more@);
}

/// Appends the eight bytes of `value`.
pub fn push_u64(bytes: &mut Vec<u8>, value: u64)
    ensures
        final(bytes)@ == old(bytes)@ + le(value),
{
    let encoded = vstd::bytes::u64_to_le_bytes(value);
    push_all(bytes, encoded.as_slice());
}

/// Reads the number whose eight bytes start at `at`.
pub fn read_u64(bytes: &[u8], at: usize) -> (value: u64)
    requires
        at + 8 <= bytes@.len(),
    ensures
        le(value) == bytes@.subrange(at as int, at + 8),
{
    assert(bytes@.len() == bytes.len());
    let value: u64 = vstd::bytes::u64_from_le_bytes(
        vstd::slice::slice_subrange(bytes, at, at + 8),
    );
    proof {
        vstd::bytes::lemma_auto_spec_u64_to_from_le_bytes();
        let s = bytes@.subrange(at as int, at + 8);
        assert(le(vstd::bytes::spec_u64_from_le_bytes(s)) == s);
    }
    value
}

/// The sixteen bytes of `bytes` from `at` on.
pub fn sixteen_at(bytes: &[u8], at: usize) -> (out: [u8; 16])
    requires
        at + 16 <= bytes@.len(),
    ensures
        out@ == bytes@.subrange(at as int, at + 16),
{
    assert(bytes@.len() == bytes.len());
    let mut out: [u8; 16] = [0;16];
    let mut i: usize = 0;
    while i < 16
        invariant
            i <= 16,
            at + 16 <= bytes@.len(),
            bytes@.len() <= usize::MAX,
            forall|j: int| 0 <= j < i ==> out@[j] == bytes@[at + j],
        decreases 16 - i,
    {
        out[i] = bytes[at + i];
        i += 1;
    }
    assert(out@ =~= bytes@.subrange(at as int, at + 16));
    out
}

/// The eight bytes of `bytes` from `at` on.
pub fn eight_at(bytes: &[u8], at: usize) -> (out: [u8; 8])
    requires
        at + 8 <= bytes@.len(),
    ensures
        out@ == bytes@.subrange(at as int, at + 8),
{
    assert(bytes@.len() == bytes.len());
    let mut out: [u8; 8] = [0;8];
    let mut i: usize = 0;
    while i < 8
        invariant
            i <= 8,
            at + 8 <= bytes@.len(),
            bytes@.len() <= usize::MAX,
            forall|j: int| 0 <= j < i ==> out@[j] == bytes@[at + j],
        decreases 8 - i,
    {
        out[i] = bytes[at + i];
        i += 1;
    }
    assert(out@ =~= bytes@.subrange(at as int, at + 8));
    out
}

/// Two concatenations whose heads are equally long agree only if heads and
/// tails do.
pub proof fn heads_and_tails(a: Seq<u8>, x: Seq<u8>, b: Seq<u8>, y: Seq<u8>)
    requires
        a.len() == b.len(),
        a + x == b + y,
    ensures
        a == b,
        x == y,
{
    assert(a =~= (a + x).take(a.len() as int));
    assert(b =~= (b + y).take(b.len() as int));
    assert(x =~= (a + x).skip(a.len() as int));
    assert(y =~= (b + y).skip(b.len() as int));
}

/// A number is written by its eight bytes, the least significant first.
pub proof fn a_number_is_written_by_its_bytes(value: u64)
    ensures
        le(value).len() == 8,
        le(value)[0] == value % 0x100,
        le(value)[1] == (value / 0x100) % 0x100,
        le(value)[2] == (value / 0x1_0000) % 0x100,
        le(value)[3] == (value / 0x100_0000) % 0x100,
        le(value)[4] == (value / 0x1_0000_0000) % 0x100,
        le(value)[5] == (value / 0x100_0000_0000) % 0x100,
        le(value)[6] == (value / 0x1_0000_0000_0000) % 0x100,
        le(value)[7] == (value / 0x100_0000_0000_0000) % 0x100,
{
    vstd::bytes::spec_u64_to_le_bytes_to_open(value);
    assert(value & 0xff == value % 0x100) by (bit_vector);
    assert((value >> 8) & 0xff == (value / 0x100) % 0x100) by (bit_vector);
    assert((value >> 16) & 0xff == (value / 0x1_0000) % 0x100) by (bit_vector);
    assert((value >> 24) & 0xff == (value / 0x100_0000) % 0x100) by (bit_vector);
    assert((value >> 32) & 0xff == (value / 0x1_0000_0000) % 0x100) by (bit_vector);
    assert((value >> 40) & 0xff == (value / 0x100_0000_0000) % 0x100) by (bit_vector);
    assert((value >> 48) & 0xff == (value / 0x1_0000_0000_0000) % 0x100) by (bit_vector);
    assert((value >> 56) & 0xff == (value / 0x100_0000_0000_0000) % 0x100) by (bit_vector);
}

}
