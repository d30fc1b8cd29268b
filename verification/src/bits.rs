//! Bit arrays stored in bytes: bit `i` of the array is bit `i % 8` of byte `i / 8`,
//! counted from the least significant end.

use vstd::prelude::*;

verus! {

/// Whether bit `k` of the byte `b` is set, for `k` below 8.
pub open spec fn byte_bit(b: u8, k: u8) -> bool {
    (b >> k) & 1u8 == 1u8
}

/// The bits that a run of bytes holds, eight for each byte.
pub open spec fn bits_of(bytes: Seq<u8>) -> Seq<bool> {
    Seq::new(8 * bytes.len(), |i: int| byte_bit(bytes[i / 8], (i % 8) as u8))
}

/// A bit array of the given length with no bit set.
pub open spec fn zeros(len: nat) -> Seq<bool> {
    Seq::new(len, |i: int| false)
}

/// The bit array after setting, one after the other, the bits at `indices`.
pub open spec fn set_each(bits: Seq<bool>, indices: Seq<int>) -> Seq<bool>
    decreases indices.len(),
{
    if indices.len() == 0 {
        bits
    } else {
        set_each(bits, indices.drop_last()).update(indices.last(), true)
    }
}

/// The zero byte has no bit set.
proof fn lemma_zero_byte(k: u8)
    by (bit_vector)
    requires
        k < 8,
    ensures
        !byte_bit(0u8, k),
{
}

/// Or-ing bit `k` into a byte sets that bit and changes no other.
proof fn lemma_byte_with_bit(b: u8, k: u8, j: u8)
    by (bit_vector)
    requires
        k < 8,
        j < 8,
    ensures
        byte_bit(b | (1u8 << k), j) == (j == k || byte_bit(b, j)),
{
}

/// Setting bits keeps the length, and afterwards a bit is set exactly if it was set before
/// or its position is among `indices`.
pub proof fn lemma_set_each(bits: Seq<bool>, indices: Seq<int>)
    requires
        forall|k: int| 0 <= k < indices.len() ==> 0 <= #[trigger] indices[k] < bits.len(),
    ensures
        set_each(bits, indices).len() == bits.len(),
        forall|i: int|
            0 <= i < bits.len() ==> #[trigger] set_each(bits, indices)[i] == (bits[i]
                || indices.contains(i)),
    decreases indices.len(),
{
    if indices.len() > 0 {
        let front = indices.drop_last();
        lemma_set_each(bits, front);
        assert forall|i: int| 0 <= i < bits.len() implies #[trigger] set_each(bits, indices)[i]
            == (bits[i] || indices.contains(i)) by {
            if indices.contains(i) {
                let k = choose|k: int| 0 <= k < indices.len() && indices[k] == i;
                if k < front.len() {
                    assert(front[k] == i);
                }
            }
            if front.contains(i) {
                let k = choose|k: int| 0 <= k < front.len() && front[k] == i;
                assert(indices[k] == i);
            }
            if i == indices.last() {
                assert(indices[indices.len() - 1] == i);
            }
        }
    }
}

/// A run of `byte_len` zero bytes.
pub(crate) fn zeroed(byte_len: usize) -> (bytes: Vec<u8>)
    ensures
        bytes@.len() == byte_len,
        bits_of(bytes@) == zeros((8 * byte_len) as nat),
{
    let mut bytes: Vec<u8> = Vec::new();
    let mut n: usize = 0;
    while n < byte_len
        invariant
            n <= byte_len,
            bytes@.len() == n,
            forall|j: int| 0 <= j < n ==> bytes@[j] == 0u8,
        decreases byte_len - n,
    {
        bytes.push(0u8);
        n = n + 1;
    }
    proof {
        assert forall|i: int| 0 <= i < 8 * byte_len implies !(#[trigger] bits_of(bytes@)[i]) by {
            lemma_zero_byte((i % 8) as u8);
        }
    }
    bytes
}

/// Reads bit `i` of the array that `bytes` holds.
pub(crate) fn test_bit(bytes: &Vec<u8>, i: usize) -> (set: bool)
    requires
        i < 8 * bytes@.len(),
    ensures
        set == bits_of(bytes@)[i as int],
{
    let byte: u8 = bytes[i / 8];
    let k: u8 = (i % 8) as u8;
    (byte >> k) & 1u8 == 1u8
}

/// Sets bit `i` of the array that `bytes` holds and leaves every other bit as it was.
pub(crate) fn set_bit(bytes: &mut Vec<u8>, i: usize)
    requires
        i < 8 * old(bytes)@.len(),
    ensures
        final(bytes)@.len() == old(bytes)@.len(),
        bits_of(final(bytes)@) == bits_of(old(bytes)@).update(i as int, true),
    no_unwind
{
    let at: usize = i / 8;
    let k: u8 = (i % 8) as u8;
    let byte: u8 = bytes[at];
    bytes[at] = byte | (1u8 << k);
    proof {
        assert forall|j: int| 0 <= j < 8 * bytes@.len() implies #[trigger] bits_of(bytes@)[j]
            == bits_of(old(bytes)@).update(i as int, true)[j] by {
            if j / 8 == at {
                lemma_byte_with_bit(byte, k, (j % 8) as u8);
            }
        }
    }
}

/// Overwrites `dest` with the bytes of `src`, which has the same length.
pub(crate) fn copy_bytes(dest: &mut Vec<u8>, src: &Vec<u8>)
    requires
        old(dest)@.len() == src@.len(),
    ensures
        final(dest)@ == src@,
    no_unwind
{
    let n: usize = src.len();
    let mut at: usize = 0;
    while at < n
        invariant
            at <= n,
            n == src@.len(),
            dest@.len() == n,
            forall|j: int| 0 <= j < at ==> dest@[j] == src@[j],
        decreases n - at,
    {
        dest[at] = src[at];
        at = at + 1;
    }
}

} // verus!
