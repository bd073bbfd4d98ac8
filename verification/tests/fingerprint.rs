use imghash::hex::{decode_hex, encode_hex};
use imghash::{Fingerprint, HashError};

fn bits_of(pattern: &str) -> Vec<bool> {
    pattern.chars().filter(|c| *c != ' ').map(|c| c == '1').collect()
}

#[test]
fn packs_most_significant_bit_first() {
    let fp = Fingerprint::from_bits(&bits_of("10000000 00000001"));
    assert_eq!(fp.as_bytes(), &vec![0x80u8, 0x01]);
    assert_eq!(fp.bit_len(), 16);
}

#[test]
fn packs_bit_i_into_byte_i_div_8_at_position_7_minus_i_mod_8() {
    for i in 0..24usize {
        let mut bits = vec![false; 24];
        bits[i] = true;
        let fp = Fingerprint::from_bits(&bits);
        let mut expected = vec![0u8; 3];
        expected[i / 8] = 1u8 << (7 - i % 8);
        assert_eq!(fp.as_bytes(), &expected);
    }
}

#[test]
fn partial_last_byte_is_padded_with_zeros() {
    let fp = Fingerprint::from_bits(&bits_of("11111111 111"));
    assert_eq!(fp.bit_len(), 11);
    assert_eq!(fp.as_bytes(), &vec![0xffu8, 0xe0]);
}

#[test]
fn empty_fingerprint_has_no_bytes() {
    let fp = Fingerprint::from_bits(&Vec::new());
    assert_eq!(fp.bit_len(), 0);
    assert!(fp.as_bytes().is_empty());
    assert_eq!(fp.encode_hex(), "");
    assert_eq!(fp.distance(&fp), Ok(0));
}

#[test]
fn byte_count_is_bit_count_over_eight_rounded_up() {
    for n in 0..40usize {
        let fp = Fingerprint::from_bits(&vec![true; n]);
        assert_eq!(fp.as_bytes().len(), (n + 7) / 8);
    }
}

#[test]
fn to_bits_gives_back_what_was_packed() {
    let bits = bits_of("10110 01110 00101 1");
    let fp = Fingerprint::from_bits(&bits);
    assert_eq!(fp.to_bits(), bits);
}

#[test]
fn bit_reads_single_positions() {
    let fp = Fingerprint::from_bits(&bits_of("0100000001"));
    assert_eq!(fp.bit(0), Some(false));
    assert_eq!(fp.bit(1), Some(true));
    assert_eq!(fp.bit(8), Some(false));
    assert_eq!(fp.bit(9), Some(true));
    assert_eq!(fp.bit(10), None);
}

#[test]
fn from_bytes_accepts_exactly_the_packed_form() {
    let fp = Fingerprint::from_bytes(vec![0xab, 0xc0], 10).unwrap();
    assert_eq!(fp.to_bits(), bits_of("10101011 11"));
    assert_eq!(fp, Fingerprint::from_bits(&bits_of("10101011 11")));
}

#[test]
fn from_bytes_refuses_wrong_length_and_stray_bits() {
    assert_eq!(Fingerprint::from_bytes(vec![0xab], 10), None);
    assert_eq!(Fingerprint::from_bytes(vec![0xab, 0xc0, 0x00], 10), None);
    assert_eq!(Fingerprint::from_bytes(vec![0xab, 0xc1], 10), None);
    assert_eq!(Fingerprint::from_bytes(vec![0xab, 0xe0], 10), None);
    assert!(Fingerprint::from_bytes(vec![0xab, 0xc1], 16).is_some());
    assert!(Fingerprint::from_bytes(vec![], 0).is_some());
}

#[test]
fn hex_is_lowercase_two_digits_per_byte_in_order() {
    assert_eq!(encode_hex(&vec![0x00, 0xff, 0x10, 0x0a, 0x9f]), "00ff100a9f");
    assert_eq!(encode_hex(&vec![]), "");
    let fp = Fingerprint::from_bits(&bits_of("11011110 10101101 1011"));
    assert_eq!(fp.encode_hex(), "deadb0");
}

#[test]
fn hex_encodes_every_byte_value() {
    for b in 0..=255u8 {
        assert_eq!(encode_hex(&vec![b]), format!("{:02x}", b));
    }
}

#[test]
fn hex_round_trips() {
    let bytes: Vec<u8> = (0..=255u8).collect();
    assert_eq!(decode_hex(&encode_hex(&bytes)), Some(bytes));
    let fp = Fingerprint::from_bits(&bits_of("10110 01110 00101 1"));
    let again = Fingerprint::from_hex(&fp.encode_hex(), fp.bit_len()).unwrap();
    assert_eq!(again, fp);
    assert_eq!(again.as_bytes(), fp.as_bytes());
}

#[test]
fn decode_hex_refuses_what_is_not_lowercase_hex() {
    assert_eq!(decode_hex("0"), None);
    assert_eq!(decode_hex("abc"), None);
    assert_eq!(decode_hex("0g"), None);
    assert_eq!(decode_hex("AB"), None);
    assert_eq!(decode_hex("0 "), None);
    assert_eq!(decode_hex("\u{e9}\u{e9}"), None);
    assert_eq!(decode_hex("00ff"), Some(vec![0x00, 0xff]));
    assert_eq!(decode_hex(""), Some(vec![]));
}

#[test]
fn from_hex_needs_the_bit_length_to_fit() {
    assert!(Fingerprint::from_hex("ff80", 9).is_some());
    assert_eq!(Fingerprint::from_hex("ff80", 8), None);
    assert_eq!(Fingerprint::from_hex("ffc0", 9), None);
    assert_eq!(Fingerprint::from_hex("zz", 8), None);
}

#[test]
fn distance_counts_differing_positions() {
    let a = Fingerprint::from_bits(&bits_of("1010 1010 1"));
    let b = Fingerprint::from_bits(&bits_of("1001 1010 0"));
    assert_eq!(a.distance(&b), Ok(3));
    let zeros = Fingerprint::from_bits(&vec![false; 70]);
    let ones = Fingerprint::from_bits(&vec![true; 70]);
    assert_eq!(zeros.distance(&ones), Ok(70));
}

#[test]
fn distance_to_self_is_zero() {
    for pattern in ["", "1", "0", "1011 0111 0001 011", "1111 1111"] {
        let a = Fingerprint::from_bits(&bits_of(pattern));
        assert_eq!(a.distance(&a), Ok(0));
        assert_eq!(a.distance(&a.clone()), Ok(0));
    }
}

#[test]
fn distance_is_symmetric() {
    let patterns = ["0000 0000 00", "1111 1111 11", "1010 1010 10", "1100 0011 01"];
    for p in patterns {
        for q in patterns {
            let a = Fingerprint::from_bits(&bits_of(p));
            let b = Fingerprint::from_bits(&bits_of(q));
            assert_eq!(a.distance(&b), b.distance(&a));
        }
    }
}

#[test]
fn distance_obeys_the_triangle_inequality() {
    let patterns = ["0000 0000 00", "1111 1111 11", "1010 1010 10", "1100 0011 01", "0111 0001 11"];
    for p in patterns {
        for q in patterns {
            for r in patterns {
                let a = Fingerprint::from_bits(&bits_of(p));
                let b = Fingerprint::from_bits(&bits_of(q));
                let c = Fingerprint::from_bits(&bits_of(r));
                let ab = a.distance(&b).unwrap();
                let ac = a.distance(&c).unwrap();
                let cb = c.distance(&b).unwrap();
                assert!(ab <= ac + cb);
            }
        }
    }
}

#[test]
fn distance_is_zero_only_for_equal_fingerprints() {
    let a = Fingerprint::from_bits(&bits_of("1010 1010 1"));
    let b = Fingerprint::from_bits(&bits_of("1010 1010 0"));
    assert_eq!(a.distance(&b), Ok(1));
    assert_ne!(a, b);
}

#[test]
fn distance_refuses_different_lengths() {
    let a = Fingerprint::from_bits(&vec![false; 64]);
    let b = Fingerprint::from_bits(&vec![false; 65]);
    assert_eq!(a.distance(&b), Err(HashError::LengthMismatch));
    assert_eq!(b.distance(&a), Err(HashError::LengthMismatch));
}
