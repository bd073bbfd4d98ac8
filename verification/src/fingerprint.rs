//! Fingerprints: bit sequences of a fixed length, held packed into bytes.

use crate::bits::{
    bit_weight, byte_len, canonical, lemma_pack_unpacked, lemma_packed_byte, lemma_unpack_packed,
    msb_bit, packed, place_value, unpacked,
};
use crate::distance::{hamming, lemma_hamming_step};
use crate::error::HashError;
use crate::hex::{decode_hex, encode_hex, hex_decoding, hex_encoding};
use vstd::prelude::*;

verus! {

/// The fingerprint of an image: an ordered sequence of bits, stored eight to
/// a byte with the first bit in the most significant position. Its view is
/// the bit sequence.
#[derive(Debug, PartialEq, Eq)]
pub struct Fingerprint {
    bit_len: usize,
    bytes: Vec<u8>,
}

impl View for Fingerprint {
    type V = Seq<bool>;

    closed spec fn view(&self) -> Seq<bool> {
        unpacked(self.bytes@, self.bit_len as nat)
    }
}

/// The value of position `k` of a byte, position 0 being the most
/// significant bit.
fn place(k: usize) -> (v: u8)
    requires
        k < 8,
    ensures
        v == place_value(k as int),
        v > 0,
{
    if k == 0 {
        128
    } else if k == 1 {
        64
    } else if k == 2 {
        32
    } else if k == 3 {
        16
    } else if k == 4 {
        8
    } else if k == 5 {
        4
    } else if k == 6 {
        2
    } else {
        1
    }
}

/// Whether position `k` of `byte` is set.
fn bit_of(byte: u8, k: usize) -> (b: bool)
    requires
        k < 8,
    ensures
        b == msb_bit(byte, k as int),
{
    (byte / place(k)) % 2 == 1
}

/// What bit `base + k` of `bits` adds to the byte that starts at bit `base`.
fn weight_at(bits: &Vec<bool>, base: usize, k: usize) -> (v: u8)
    requires
        k < 8,
        base % 8 == 0,
        base < bits@.len(),
    ensures
        v == bit_weight(bits@, base + k),
{
    if k < bits.len() - base && bits[base + k] {
        place(k)
    } else {
        0
    }
}

/// The number of bytes that hold `n` bits.
fn bytes_for(n: usize) -> (len: usize)
    ensures
        len == byte_len(n as nat),
{
    if n % 8 == 0 {
        n / 8
    } else {
        n / 8 + 1
    }
}

/// Whether `bytes` is the packed form of some `n` bits.
fn is_canonical(bytes: &Vec<u8>, n: usize) -> (b: bool)
    ensures
        b == canonical(bytes@, n as nat),
{
    if bytes.len() != bytes_for(n) {
        return false;
    }
    if n % 8 == 0 {
        return true;
    }
    let last = bytes[n / 8];
    let mut k: usize = n % 8;
    while k < 8
        invariant
            n % 8 <= k <= 8,
            n % 8 != 0,
            bytes@.len() == byte_len(n as nat),
            last == bytes@[n as int / 8],
            forall|m: int| n % 8 <= m < k ==> !msb_bit(last, m),
        decreases 8 - k,
    {
        if bit_of(last, k) {
            proof {
                let i = (n as int / 8) * 8 + k;
                assert(i / 8 == n as int / 8 && i % 8 == k);
                assert(msb_bit(bytes@[i / 8], i % 8));
            }
            return false;
        }
        k = k + 1;
    }
    proof {
        assert forall|i: int| n <= i < 8 * bytes@.len() implies !msb_bit(
            #[trigger] bytes@[i / 8],
            i % 8,
        ) by {
            assert(i / 8 == n as int / 8);
        }
    }
    true
}

impl Fingerprint {
    /// The bytes that hold the fingerprint.
    pub closed spec fn spec_bytes(&self) -> Seq<u8> {
        self.bytes@
    }

    /// What holds of every fingerprint: its bytes are the packed form of its
    /// bits.
    #[verifier::type_invariant]
    pub open spec fn well_formed(&self) -> bool {
        self.spec_bytes() == packed(self@)
    }

    /// Packs `bits` into a fingerprint: bit `i` goes to byte `i / 8`, at
    /// position `i % 8` counted from the most significant bit, and the
    /// positions of the last byte that no bit fills stay zero.
    pub fn from_bits(bits: &Vec<bool>) -> (fp: Fingerprint)
        ensures
            fp@ == bits@,
            fp.spec_bytes() == packed(bits@),
    {
        let n = bits.len();
        let count = bytes_for(n);
        let mut bytes: Vec<u8> = Vec::new();
        let mut j: usize = 0;
        while j < count
            invariant
                n == bits@.len(),
                count == byte_len(n as nat),
                j <= count,
                bytes@ == packed(bits@).take(j as int),
            decreases count - j,
        {
            proof {
                lemma_packed_byte(bits@, j as int);
            }
            let base = 8 * j;
            let byte = weight_at(bits, base, 0) + weight_at(bits, base, 1) + weight_at(
                bits,
                base,
                2,
            ) + weight_at(bits, base, 3) + weight_at(bits, base, 4) + weight_at(bits, base, 5)
                + weight_at(bits, base, 6) + weight_at(bits, base, 7);
            proof {
                assert(bit_weight(bits@, 8 * j) == bit_weight(bits@, 8 * j + 0));
                assert(packed(bits@).take(j + 1) =~= packed(bits@).take(j as int).push(byte));
            }
            bytes.push(byte);
            j = j + 1;
        }
        proof {
            assert(packed(bits@).take(count as int) =~= packed(bits@));
            lemma_unpack_packed(bits@);
        }
        Fingerprint { bit_len: n, bytes }
    }

    /// Takes `bytes` as the packed form of `bit_len` bits. Gives nothing
    /// unless there are exactly as many bytes as `bit_len` bits fill and the
    /// positions after the last bit are zero.
    pub fn from_bytes(bytes: Vec<u8>, bit_len: usize) -> (r: Option<Fingerprint>)
        ensures
            r is Some <==> canonical(bytes@, bit_len as nat),
            r matches Some(fp) ==> fp@ == unpacked(bytes@, bit_len as nat) && fp.spec_bytes()
                == bytes@,
    {
        if is_canonical(&bytes, bit_len) {
            proof {
                lemma_pack_unpacked(bytes@, bit_len as nat);
            }
            Some(Fingerprint { bit_len, bytes })
        } else {
            None
        }
    }

    /// Reads a fingerprint of `bit_len` bits from lowercase hexadecimal
    /// text. Gives nothing unless the text is hexadecimal and its bytes are
    /// the packed form of `bit_len` bits.
    pub fn from_hex(text: &str, bit_len: usize) -> (r: Option<Fingerprint>)
        ensures
            r is Some <==> hex_decoding(text@) is Some && canonical(
                hex_decoding(text@).unwrap(),
                bit_len as nat,
            ),
            r matches Some(fp) ==> fp.spec_bytes() == hex_decoding(text@).unwrap() && fp@
                == unpacked(fp.spec_bytes(), bit_len as nat),
    {
        match decode_hex(text) {
            Some(bytes) => Fingerprint::from_bytes(bytes, bit_len),
            None => None,
        }
    }

    /// The number of bits.
    pub fn bit_len(&self) -> (n: usize)
        ensures
            n == self@.len(),
    {
        self.bit_len
    }

    /// The packed bytes, `byte_len` of them.
    pub fn as_bytes(&self) -> (bytes: &Vec<u8>)
        ensures
            bytes@ == self.spec_bytes(),
            bytes@ == packed(self@),
    {
        proof {
            use_type_invariant(self);
        }
        &self.bytes
    }

    /// Bit `i`, if the fingerprint has that many bits.
    pub fn bit(&self, i: usize) -> (r: Option<bool>)
        ensures
            r == (if i < self@.len() {
                Some(self@[i as int])
            } else {
                None
            }),
    {
        if i < self.bit_len {
            Some(self.bit_at(i))
        } else {
            None
        }
    }

    /// Bit `i`.
    fn bit_at(&self, i: usize) -> (b: bool)
        requires
            i < self@.len(),
        ensures
            b == self@[i as int],
    {
        proof {
            use_type_invariant(self);
        }
        bit_of(self.bytes[i / 8], i % 8)
    }

    /// The bits, one `bool` each.
    pub fn to_bits(&self) -> (bits: Vec<bool>)
        ensures
            bits@ == self@,
    {
        let n = self.bit_len;
        let mut bits: Vec<bool> = Vec::new();
        let mut i: usize = 0;
        while i < n
            invariant
                n == self@.len(),
                i <= n,
                bits@ == self@.take(i as int),
            decreases n - i,
        {
            bits.push(self.bit_at(i));
            i = i + 1;
        }
        bits
    }

    /// The packed bytes as lowercase hexadecimal text, two digits per byte in
    /// the order of the bytes.
    pub fn encode_hex(&self) -> (text: String)
        ensures
            text@ == hex_encoding(packed(self@)),
    {
        proof {
            use_type_invariant(self);
        }
        encode_hex(&self.bytes)
    }

    /// The Hamming distance to `other`: the number of positions at which the
    /// two bit sequences differ, which is at most their length. Fingerprints
    /// of different bit lengths are not compared.
    pub fn distance(&self, other: &Fingerprint) -> (r: Result<usize, HashError>)
        ensures
            match r {
                Ok(d) => self@.len() == other@.len() && d == hamming(self@, other@) && d
                    <= self@.len(),
                Err(e) => self@.len() != other@.len() && e == HashError::LengthMismatch,
            },
    {
        if self.bit_len != other.bit_len {
            return Err(HashError::LengthMismatch);
        }
        let n = self.bit_len;
        let mut d: usize = 0;
        let mut i: usize = 0;
        while i < n
            invariant
                n == self@.len(),
                n == other@.len(),
                i <= n,
                d == hamming(self@.take(i as int), other@.take(i as int)),
                d <= i,
            decreases n - i,
        {
            proof {
                lemma_hamming_step(self@, other@, i as int);
            }
            if self.bit_at(i) != other.bit_at(i) {
                d = d + 1;
            }
            i = i + 1;
        }
        proof {
            assert(self@.take(n as int) =~= self@);
            assert(other@.take(n as int) =~= other@);
        }
        Ok(d)
    }
}

/// The hexadecimal text of a fingerprint identifies it: decoding the text
/// gives the packed bytes back, and these, taken with the bit length, give
/// the bits back.
pub proof fn lemma_hex_identifies_fingerprint(bits: Seq<bool>)
    ensures
        hex_decoding(hex_encoding(packed(bits))) == Some(packed(bits)),
        canonical(packed(bits), bits.len()),
        unpacked(packed(bits), bits.len()) == bits,
{
    crate::hex::lemma_hex_round_trip(packed(bits));
    lemma_unpack_packed(bits);
}

impl Clone for Fingerprint {
    fn clone(&self) -> (r: Self)
        ensures
            r@ == self@,
            r.spec_bytes() == self.spec_bytes(),
    {
        proof {
            use_type_invariant(self);
        }
        Fingerprint { bit_len: self.bit_len, bytes: self.bytes.clone() }
    }
}

} // verus!
