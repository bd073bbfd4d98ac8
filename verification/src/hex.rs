//! Lowercase hexadecimal text for byte sequences.

use vstd::prelude::*;
use vstd::string::*;

verus! {

/// The lowercase hexadecimal digit for a value below sixteen.
pub open spec fn hex_digit(v: int) -> char {
    if v < 10 {
        ((48 + v) as u8) as char
    } else {
        ((87 + v) as u8) as char
    }
}

/// The value of a lowercase hexadecimal digit; nothing for any other
/// character.
pub open spec fn hex_value(c: char) -> Option<int> {
    let code = c as int;
    if 48 <= code <= 57 {
        Some(code - 48)
    } else if 97 <= code <= 102 {
        Some(code - 87)
    } else {
        None
    }
}

/// The hexadecimal text of `bytes`: two digits per byte, the high half
/// first, the bytes in their order.
pub open spec fn hex_encoding(bytes: Seq<u8>) -> Seq<char> {
    Seq::new(
        2 * bytes.len(),
        |i: int|
            if i % 2 == 0 {
                hex_digit(bytes[i / 2] as int / 16)
            } else {
                hex_digit(bytes[i / 2] as int % 16)
            },
    )
}

/// Whether `text` is the hexadecimal text of some bytes: an even number of
/// lowercase hexadecimal digits.
pub open spec fn is_hex(text: Seq<char>) -> bool {
    &&& text.len() % 2 == 0
    &&& forall|i: int| 0 <= i < text.len() ==> (#[trigger] hex_value(text[i])) is Some
}

/// The bytes that `text` stands for, if it is hexadecimal text.
pub open spec fn hex_decoding(text: Seq<char>) -> Option<Seq<u8>> {
    if is_hex(text) {
        Some(
            Seq::new(
                text.len() / 2,
                |j: int|
                    (hex_value(text[2 * j]).unwrap() * 16 + hex_value(
                        text[2 * j + 1],
                    ).unwrap()) as u8,
            ),
        )
    } else {
        None
    }
}

/// Decoding the hexadecimal text of a byte sequence gives the same bytes
/// back.
pub proof fn lemma_hex_round_trip(bytes: Seq<u8>)
    ensures
        hex_decoding(hex_encoding(bytes)) == Some(bytes),
{
    let text = hex_encoding(bytes);
    assert forall|i: int| 0 <= i < text.len() implies (#[trigger] hex_value(text[i])) is Some by {
        let b = bytes[i / 2] as int;
        assert(0 <= b / 16 < 16 && 0 <= b % 16 < 16);
    }
    assert(is_hex(text));
    let back = hex_decoding(text).unwrap();
    assert forall|j: int| 0 <= j < bytes.len() implies back[j] == bytes[j] by {
        let b = bytes[j] as int;
        assert((2 * j) / 2 == j && (2 * j) % 2 == 0);
        assert((2 * j + 1) / 2 == j && (2 * j + 1) % 2 == 1);
        assert(hex_value(text[2 * j]) == Some(b / 16));
        assert(hex_value(text[2 * j + 1]) == Some(b % 16));
    }
    assert(back =~= bytes);
}

/// The text of one hexadecimal digit.
fn digit_text(v: u8) -> (text: &'static str)
    requires
        v < 16,
    ensures
        text@ == seq![hex_digit(v as int)],
{
    proof {
        reveal_strlit("0");
        reveal_strlit("1");
        reveal_strlit("2");
        reveal_strlit("3");
        reveal_strlit("4");
        reveal_strlit("5");
        reveal_strlit("6");
        reveal_strlit("7");
        reveal_strlit("8");
        reveal_strlit("9");
        reveal_strlit("a");
        reveal_strlit("b");
        reveal_strlit("c");
        reveal_strlit("d");
        reveal_strlit("e");
        reveal_strlit("f");
    }
    let text = if v == 0 {
        "0"
    } else if v == 1 {
        "1"
    } else if v == 2 {
        "2"
    } else if v == 3 {
        "3"
    } else if v == 4 {
        "4"
    } else if v == 5 {
        "5"
    } else if v == 6 {
        "6"
    } else if v == 7 {
        "7"
    } else if v == 8 {
        "8"
    } else if v == 9 {
        "9"
    } else if v == 10 {
        "a"
    } else if v == 11 {
        "b"
    } else if v == 12 {
        "c"
    } else if v == 13 {
        "d"
    } else if v == 14 {
        "e"
    } else {
        "f"
    };
    assert(text@ =~= seq![hex_digit(v as int)]);
    text
}

/// Writes `bytes` as lowercase hexadecimal text, two digits per byte.
pub fn encode_hex(bytes: &Vec<u8>) -> (text: String)
    ensures
        text@ == hex_encoding(bytes@),
{
    let n = bytes.len();
    let mut text = String::new();
    let mut j: usize = 0;
    while j < n
        invariant
            n == bytes@.len(),
            j <= n,
            text@ == hex_encoding(bytes@).take(2 * j),
        decreases n - j,
    {
        let b = bytes[j];
        text.append(digit_text(b / 16));
        text.append(digit_text(b % 16));
        proof {
            let all = hex_encoding(bytes@);
            assert((2 * j) / 2 == j && (2 * j) % 2 == 0);
            assert((2 * j + 1) / 2 == j && (2 * j + 1) % 2 == 1);
            assert(all.take(2 * (j + 1)) =~= all.take(2 * j) + seq![all[2 * j]] + seq![
                all[2 * j + 1],
            ]);
        }
        j = j + 1;
    }
    assert(hex_encoding(bytes@).take(2 * n) =~= hex_encoding(bytes@));
    text
}

/// The value of the hexadecimal digit with the ASCII code `code`.
fn digit_value(code: u8) -> (v: Option<u8>)
    ensures
        code < 128 ==> match v {
            Some(d) => hex_value(code as char) == Some(d as int),
            None => hex_value(code as char) is None,
        },
{
    if 48 <= code && code <= 57 {
        Some(code - 48)
    } else if 97 <= code && code <= 102 {
        Some(code - 87)
    } else {
        None
    }
}

/// Reads lowercase hexadecimal text back into bytes. Gives nothing for text
/// of odd length or with any character that is not a lowercase hexadecimal
/// digit.
pub fn decode_hex(text: &str) -> (r: Option<Vec<u8>>)
    ensures
        match r {
            Some(bytes) => hex_decoding(text@) == Some(bytes@),
            None => hex_decoding(text@) is None,
        },
{
    if !text.is_ascii() {
        proof {
            if is_hex(text@) {
                assert forall|i: int| 0 <= i < text@.len() implies '\0' <= #[trigger] text@[i]
                    <= '\u{7f}' by {
                    assert(hex_value(text@[i]) is Some);
                }
                assert(is_ascii(text));
            }
        }
        return None;
    }
    proof {
        is_ascii_spec_bytes(text);
    }
    let codes = text.as_bytes();
    let len = codes.len();
    if len % 2 != 0 {
        return None;
    }
    let n = len / 2;
    let mut bytes: Vec<u8> = Vec::new();
    let mut j: usize = 0;
    while j < n
        invariant
            is_ascii(text),
            len == text@.len(),
            codes@.len() == len,
            forall|i: int| 0 <= i < len ==> #[trigger] codes@[i] == text@[i] as u8,
            len == 2 * n,
            j <= n,
            bytes@.len() == j,
            forall|i: int| 0 <= i < 2 * j ==> (#[trigger] hex_value(text@[i])) is Some,
            forall|m: int|
                0 <= m < j ==> #[trigger] bytes@[m] == (hex_value(text@[2 * m]).unwrap() * 16
                    + hex_value(text@[2 * m + 1]).unwrap()) as u8,
        decreases n - j,
    {
        let high = digit_value(codes[2 * j]);
        let low = digit_value(codes[2 * j + 1]);
        proof {
            assert(codes@[2 * j as int] as char == text@[2 * j as int]);
            assert(codes@[2 * j + 1] as char == text@[2 * j + 1]);
        }
        match (high, low) {
            (Some(h), Some(l)) => {
                bytes.push(h * 16 + l);
            },
            _ => {
                assert(hex_value(text@[2 * j as int]) is None || hex_value(
                    text@[2 * j + 1],
                ) is None);
                return None;
            },
        }
        proof {
            assert forall|i: int| 0 <= i < 2 * (j + 1) implies (#[trigger] hex_value(
                text@[i],
            )) is Some by {
                if i >= 2 * j {
                    assert(i == 2 * j || i == 2 * j + 1);
                }
            }
        }
        j = j + 1;
    }
    assert(bytes@ =~= hex_decoding(text@).unwrap());
    Some(bytes)
}

} // verus!
