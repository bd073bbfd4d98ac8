//! Bit sequences and their packed form, most significant bit first.

use vstd::prelude::*;

verus! {

/// The value that position `k` of a byte contributes, position 0 being the
/// most significant bit.
pub open spec fn place_value(k: int) -> int {
    if k == 0 {
        128
    } else if k == 1 {
        64
    } else if k == 2 {
        32
    } else if k == 3 {
        16
    } else if k == 4 {
        8
    } else if k == 5 {
        4
    } else if k == 6 {
        2
    } else if k == 7 {
        1
    } else {
        0
    }
}

/// Whether position `k` of `byte` is set, position 0 being the most
/// significant bit.
pub open spec fn msb_bit(byte: u8, k: int) -> bool {
    (byte as int / place_value(k)) % 2 == 1
}

/// The number of bytes that hold `n` bits.
pub open spec fn byte_len(n: nat) -> nat {
    ((n + 7) / 8) as nat
}

/// What bit `i` of `bits` adds to the byte that holds it; nothing beyond the
/// end of `bits`.
pub open spec fn bit_weight(bits: Seq<bool>, i: int) -> int {
    if 0 <= i < bits.len() && bits[i] {
        place_value(i % 8)
    } else {
        0
    }
}

/// Byte `j` of the packed form of `bits`.
pub open spec fn packed_byte(bits: Seq<bool>, j: int) -> int {
    bit_weight(bits, 8 * j) + bit_weight(bits, 8 * j + 1) + bit_weight(bits, 8 * j + 2)
        + bit_weight(bits, 8 * j + 3) + bit_weight(bits, 8 * j + 4) + bit_weight(bits, 8 * j + 5)
        + bit_weight(bits, 8 * j + 6) + bit_weight(bits, 8 * j + 7)
}

/// The packed form of `bits`: bit `i` sits in byte `i / 8` at position
/// `i % 8` counted from the most significant bit, and the positions of the
/// last byte that no bit fills are zero.
pub open spec fn packed(bits: Seq<bool>) -> Seq<u8> {
    Seq::new(byte_len(bits.len()), |j: int| packed_byte(bits, j) as u8)
}

/// The first `n` bits held in `bytes`.
pub open spec fn unpacked(bytes: Seq<u8>, n: nat) -> Seq<bool> {
    Seq::new(n, |i: int| msb_bit(bytes[i / 8], i % 8))
}

/// `bytes` is the packed form of some `n` bits: it has the right length and
/// the positions after bit `n` are zero.
pub open spec fn canonical(bytes: Seq<u8>, n: nat) -> bool {
    &&& bytes.len() == byte_len(n)
    &&& forall|i: int| n <= i < 8 * bytes.len() ==> !msb_bit(#[trigger] bytes[i / 8], i % 8)
}

/// A byte is the sum of the place values of its set positions.
pub proof fn lemma_byte_is_sum_of_places(byte: u8)
    ensures
        byte as int == (if msb_bit(byte, 0) { 128int } else { 0 })
            + (if msb_bit(byte, 1) { 64int } else { 0 })
            + (if msb_bit(byte, 2) { 32int } else { 0 })
            + (if msb_bit(byte, 3) { 16int } else { 0 })
            + (if msb_bit(byte, 4) { 8int } else { 0 })
            + (if msb_bit(byte, 5) { 4int } else { 0 })
            + (if msb_bit(byte, 6) { 2int } else { 0 })
            + (if msb_bit(byte, 7) { 1int } else { 0 }),
{
    assert(byte == (if (byte / 128) % 2 == 1 { 128u8 } else { 0 })
        + (if (byte / 64) % 2 == 1 { 64u8 } else { 0 })
        + (if (byte / 32) % 2 == 1 { 32u8 } else { 0 })
        + (if (byte / 16) % 2 == 1 { 16u8 } else { 0 })
        + (if (byte / 8) % 2 == 1 { 8u8 } else { 0 })
        + (if (byte / 4) % 2 == 1 { 4u8 } else { 0 })
        + (if (byte / 2) % 2 == 1 { 2u8 } else { 0 })
        + (if (byte / 1) % 2 == 1 { 1u8 } else { 0 })) by (bit_vector);
}

/// The sum of the place values of chosen positions fits in a byte, and each
/// position of that byte is set exactly when it was chosen.
proof fn lemma_sum_of_places(b: Seq<bool>, v: int)
    requires
        b.len() == 8,
        v == (if b[0] { 128int } else { 0 }) + (if b[1] { 64int } else { 0 }) + (if b[2] {
            32int
        } else {
            0
        }) + (if b[3] { 16int } else { 0 }) + (if b[4] { 8int } else { 0 }) + (if b[5] {
            4int
        } else {
            0
        }) + (if b[6] { 2int } else { 0 }) + (if b[7] { 1int } else { 0 }),
    ensures
        0 <= v <= 255,
        forall|k: int| 0 <= k < 8 ==> (#[trigger] msb_bit(v as u8, k) <==> b[k]),
{
    assert((v / 128) % 2 == 1 <==> b[0]);
    assert((v / 64) % 2 == 1 <==> b[1]);
    assert((v / 32) % 2 == 1 <==> b[2]);
    assert((v / 16) % 2 == 1 <==> b[3]);
    assert((v / 8) % 2 == 1 <==> b[4]);
    assert((v / 4) % 2 == 1 <==> b[5]);
    assert((v / 2) % 2 == 1 <==> b[6]);
    assert((v / 1) % 2 == 1 <==> b[7]);
}

/// A packed byte fits in eight bits, and each of its positions holds the bit
/// that was packed there.
pub proof fn lemma_packed_byte(bits: Seq<bool>, j: int)
    requires
        0 <= j,
    ensures
        0 <= packed_byte(bits, j) <= 255,
        forall|k: int|
            0 <= k < 8 ==> (#[trigger] msb_bit(packed_byte(bits, j) as u8, k) <==> 8 * j + k
                < bits.len() && bits[8 * j + k]),
{
    let chosen = Seq::new(8, |k: int| 8 * j + k < bits.len() && bits[8 * j + k]);
    assert forall|k: int| 0 <= k < 8 implies #[trigger] bit_weight(bits, 8 * j + k) == (if chosen[k] {
        place_value(k)
    } else {
        0
    }) by {
        assert((8 * j + k) % 8 == k);
    }
    assert(bit_weight(bits, 8 * j) == bit_weight(bits, 8 * j + 0));
    lemma_sum_of_places(chosen, packed_byte(bits, j));
}

/// Unpacking what was packed gives the bits back.
pub proof fn lemma_unpack_packed(bits: Seq<bool>)
    ensures
        canonical(packed(bits), bits.len()),
        unpacked(packed(bits), bits.len()) == bits,
{
    let n = bits.len();
    let bytes = packed(bits);
    assert forall|i: int| 0 <= i < 8 * bytes.len() implies (msb_bit(#[trigger] bytes[i / 8], i % 8)
        <==> i < n && bits[i]) by {
        lemma_packed_byte(bits, i / 8);
        assert(msb_bit(packed_byte(bits, i / 8) as u8, i % 8) <==> 8 * (i / 8) + i % 8 < n
            && bits[8 * (i / 8) + i % 8]);
    }
    assert(unpacked(bytes, n) =~= bits);
}

/// Packing the bits of a canonical byte sequence gives the bytes back.
pub proof fn lemma_pack_unpacked(bytes: Seq<u8>, n: nat)
    requires
        canonical(bytes, n),
    ensures
        packed(unpacked(bytes, n)) == bytes,
{
    let bits = unpacked(bytes, n);
    assert forall|j: int| 0 <= j < bytes.len() implies packed_byte(bits, j) == bytes[j] by {
        lemma_byte_is_sum_of_places(bytes[j]);
        assert forall|k: int| 0 <= k < 8 implies bit_weight(bits, 8 * j + k) == (if msb_bit(
            bytes[j],
            k,
        ) {
            place_value(k)
        } else {
            0
        }) by {
            let i = 8 * j + k;
            assert(i / 8 == j && i % 8 == k);
            if i >= n {
                assert(!msb_bit(bytes[i / 8], i % 8));
            }
        }
        assert(bit_weight(bits, 8 * j) == bit_weight(bits, 8 * j + 0));
    }
    assert(packed(bits) =~= bytes);
}

} // verus!
