//! Bits and hexadecimal digits: four bits, most significant first, make one
//! digit out of `0`-`9` and `A`-`F`.

use vstd::prelude::*;
use vstd::string::*;

verus! {

/// Every element of `bits` is `0` or `1`.
pub open spec fn valid_bits(bits: Seq<u8>) -> bool {
    forall|i: int| 0 <= i < bits.len() ==> #[trigger] bits[i] <= 1
}

/// The digit that stands for the value `v` of four bits.
pub open spec fn hex_digit(v: int) -> char {
    if v == 0 {
        '0'
    } else if v == 1 {
        '1'
    } else if v == 2 {
        '2'
    } else if v == 3 {
        '3'
    } else if v == 4 {
        '4'
    } else if v == 5 {
        '5'
    } else if v == 6 {
        '6'
    } else if v == 7 {
        '7'
    } else if v == 8 {
        '8'
    } else if v == 9 {
        '9'
    } else if v == 10 {
        'A'
    } else if v == 11 {
        'B'
    } else if v == 12 {
        'C'
    } else if v == 13 {
        'D'
    } else if v == 14 {
        'E'
    } else {
        'F'
    }
}

/// The value that the digit `c` stands for, if `c` is one of the sixteen
/// digits. Lower-case letters are no digits.
pub open spec fn hex_value(c: char) -> Option<int> {
    if c == '0' {
        Some(0)
    } else if c == '1' {
        Some(1)
    } else if c == '2' {
        Some(2)
    } else if c == '3' {
        Some(3)
    } else if c == '4' {
        Some(4)
    } else if c == '5' {
        Some(5)
    } else if c == '6' {
        Some(6)
    } else if c == '7' {
        Some(7)
    } else if c == '8' {
        Some(8)
    } else if c == '9' {
        Some(9)
    } else if c == 'A' {
        Some(10)
    } else if c == 'B' {
        Some(11)
    } else if c == 'C' {
        Some(12)
    } else if c == 'D' {
        Some(13)
    } else if c == 'E' {
        Some(14)
    } else if c == 'F' {
        Some(15)
    } else {
        None
    }
}

/// The value of the four bits that start at `start`, the first of them
/// counting eight.
pub open spec fn nibble_at(bits: Seq<u8>, start: int) -> int {
    8 * bits[start] + 4 * bits[start + 1] + 2 * bits[start + 2] + bits[start + 3]
}

/// The bit at position `j` (`0` is the most significant) of the four-bit
/// value `v`.
pub open spec fn nibble_bit(v: int, j: int) -> u8 {
    if j == 0 {
        (v / 8 % 2) as u8
    } else if j == 1 {
        (v / 4 % 2) as u8
    } else if j == 2 {
        (v / 2 % 2) as u8
    } else {
        (v % 2) as u8
    }
}

/// The hexadecimal text of `bits`: one digit for each full group of four.
pub open spec fn encode_hex(bits: Seq<u8>) -> Seq<char> {
    Seq::new((bits.len() / 4) as nat, |k: int| hex_digit(nibble_at(bits, 4 * k)))
}

/// Every element of `hex` is one of the sixteen digits.
pub open spec fn valid_hex(hex: Seq<char>) -> bool {
    forall|k: int| 0 <= k < hex.len() ==> (#[trigger] hex_value(hex[k])) is Some
}

/// The bits that `hex` stands for, four for each digit, or nothing where
/// `hex` holds anything but digits.
pub open spec fn decode_hex(hex: Seq<char>) -> Option<Seq<u8>> {
    if valid_hex(hex) {
        Some(Seq::new(4 * hex.len(), |i: int| nibble_bit(hex_value(hex[i / 4]).unwrap(), i % 4)))
    } else {
        None
    }
}

/// The digit for four bits, most significant first, or nothing where one of
/// them is neither `0` nor `1`.
pub fn binary_to_hex(b0: u8, b1: u8, b2: u8, b3: u8) -> (digit: Option<char>)
    ensures
        digit == if b0 <= 1 && b1 <= 1 && b2 <= 1 && b3 <= 1 {
            Some(hex_digit(8 * b0 + 4 * b1 + 2 * b2 + b3))
        } else {
            None
        },
{
    match (b0, b1, b2, b3) {
        (0, 0, 0, 0) => Some('0'),
        (0, 0, 0, 1) => Some('1'),
        (0, 0, 1, 0) => Some('2'),
        (0, 0, 1, 1) => Some('3'),
        (0, 1, 0, 0) => Some('4'),
        (0, 1, 0, 1) => Some('5'),
        (0, 1, 1, 0) => Some('6'),
        (0, 1, 1, 1) => Some('7'),
        (1, 0, 0, 0) => Some('8'),
        (1, 0, 0, 1) => Some('9'),
        (1, 0, 1, 0) => Some('A'),
        (1, 0, 1, 1) => Some('B'),
        (1, 1, 0, 0) => Some('C'),
        (1, 1, 0, 1) => Some('D'),
        (1, 1, 1, 0) => Some('E'),
        (1, 1, 1, 1) => Some('F'),
        _ => None,
    }
}

/// The four bits of a hexadecimal digit, most significant first, or nothing
/// where `hexval` is no digit.
pub fn hex_to_binary(hexval: &char) -> (bits: Option<[u8; 4]>)
    ensures
        match bits {
            Some(b) => hex_value(*hexval) matches Some(v) && forall|j: int|
                0 <= j < 4 ==> b@[j] == nibble_bit(v, j),
            None => hex_value(*hexval) is None,
        },
{
    match *hexval {
        '0' => Some([0, 0, 0, 0]),
        '1' => Some([0, 0, 0, 1]),
        '2' => Some([0, 0, 1, 0]),
        '3' => Some([0, 0, 1, 1]),
        '4' => Some([0, 1, 0, 0]),
        '5' => Some([0, 1, 0, 1]),
        '6' => Some([0, 1, 1, 0]),
        '7' => Some([0, 1, 1, 1]),
        '8' => Some([1, 0, 0, 0]),
        '9' => Some([1, 0, 0, 1]),
        'A' => Some([1, 0, 1, 0]),
        'B' => Some([1, 0, 1, 1]),
        'C' => Some([1, 1, 0, 0]),
        'D' => Some([1, 1, 0, 1]),
        'E' => Some([1, 1, 1, 0]),
        'F' => Some([1, 1, 1, 1]),
        _ => None,
    }
}

/// The digit for the value `v` of four bits, as text of one character.
pub(crate) fn hex_digit_str(v: usize) -> (digit: &'static str)
    requires
        v < 16,
    ensures
        digit@ == seq![hex_digit(v as int)],
{
    let digits = "0123456789ABCDEF";
    proof {
        reveal_strlit("0123456789ABCDEF");
    }
    let digit = digits.substring_ascii(v, v + 1);
    assert(digit@ =~= seq![hex_digit(v as int)]);
    digit
}

/// A digit stands for the value that it was chosen for.
pub proof fn lemma_hex_digit_value(v: int)
    requires
        0 <= v < 16,
    ensures
        hex_value(hex_digit(v)) == Some(v),
{
}

/// The four bits of a value, read as a number, give the value back.
pub proof fn lemma_nibble_bits_value(b0: u8, b1: u8, b2: u8, b3: u8)
    requires
        b0 <= 1,
        b1 <= 1,
        b2 <= 1,
        b3 <= 1,
    ensures
        ({
            let v = 8 * b0 + 4 * b1 + 2 * b2 + b3;
            &&& 0 <= v < 16
            &&& nibble_bit(v, 0) == b0
            &&& nibble_bit(v, 1) == b1
            &&& nibble_bit(v, 2) == b2
            &&& nibble_bit(v, 3) == b3
        }),
{
}

/// Encoding bits as hexadecimal text and decoding that text gives the bits
/// back, whenever their number is a multiple of four.
pub proof fn lemma_hex_round_trip(bits: Seq<u8>)
    requires
        valid_bits(bits),
        bits.len() % 4 == 0,
    ensures
        decode_hex(encode_hex(bits)) == Some(bits),
{
    let hex = encode_hex(bits);
    assert forall|k: int| 0 <= k < hex.len() implies (#[trigger] hex_value(hex[k])) == Some(
        nibble_at(bits, 4 * k),
    ) by {
        lemma_nibble_bits_value(bits[4 * k], bits[4 * k + 1], bits[4 * k + 2], bits[4 * k + 3]);
        lemma_hex_digit_value(nibble_at(bits, 4 * k));
    }
    assert(valid_hex(hex));
    let back = decode_hex(hex).unwrap();
    assert(back.len() == bits.len());
    assert forall|i: int| 0 <= i < bits.len() implies back[i] == bits[i] by {
        let k = i / 4;
        assert(hex_value(hex[k]) == Some(nibble_at(bits, 4 * k)));
        lemma_nibble_bits_value(bits[4 * k], bits[4 * k + 1], bits[4 * k + 2], bits[4 * k + 3]);
        assert(i == 4 * k + i % 4);
    }
    assert(back =~= bits);
}

} // verus!
