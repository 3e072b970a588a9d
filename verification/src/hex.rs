//! Hexadecimal text as it appears on the wire.
//!
//! Payloads travel as pairs of hexadecimal digits, the most significant
//! nibble first. Commands are written with upper-case digits; responses are
//! accepted in either case.

use vstd::prelude::*;

verus! {

/// The value of a hexadecimal digit, or `None` for any other byte.
pub open spec fn digit_value(c: u8) -> Option<u8> {
    if 0x30 <= c <= 0x39 {
        Some((c - 0x30) as u8)
    } else if 0x41 <= c <= 0x46 {
        Some((c - 0x41 + 10) as u8)
    } else if 0x61 <= c <= 0x66 {
        Some((c - 0x61 + 10) as u8)
    } else {
        None
    }
}

/// The upper-case digit that stands for a value below sixteen.
pub open spec fn digit(n: int) -> u8 {
    if n < 10 {
        (0x30 + n) as u8
    } else {
        (0x41 + n - 10) as u8
    }
}

/// The two digits of one byte.
pub open spec fn hex_of_byte(b: u8) -> Seq<u8> {
    seq![digit(b as int / 16), digit(b as int % 16)]
}

/// The four digits of a 16-bit address.
pub open spec fn hex_of_u16(v: u16) -> Seq<u8> {
    seq![
        digit(v as int / 4096),
        digit(v as int / 256 % 16),
        digit(v as int / 16 % 16),
        digit(v as int % 16),
    ]
}

/// The digits of a byte sequence: two per byte, in order.
pub open spec fn hex_of(data: Seq<u8>) -> Seq<u8> {
    Seq::new(
        2 * data.len(),
        |j: int|
            if j % 2 == 0 {
                digit(data[j / 2] as int / 16)
            } else {
                digit(data[j / 2] as int % 16)
            },
    )
}

/// Whether `text` is an even number of hexadecimal digits and nothing else.
pub open spec fn is_hex(text: Seq<u8>) -> bool {
    &&& text.len() % 2 == 0
    &&& forall|j: int| 0 <= j < text.len() ==> (#[trigger] digit_value(text[j])) is Some
}

/// The byte that the digit pair at position `i` of `text` stands for.
pub open spec fn pair_value(text: Seq<u8>, i: int) -> u8 {
    (16 * digit_value(text[2 * i]).unwrap() + digit_value(text[2 * i + 1]).unwrap()) as u8
}

/// The bytes that `text` stands for, or `None` where it is not hexadecimal.
pub open spec fn bytes_of(text: Seq<u8>) -> Option<Seq<u8>> {
    if is_hex(text) {
        Some(Seq::new(text.len() / 2, |i: int| pair_value(text, i)))
    } else {
        None
    }
}

/// Decodes one hexadecimal digit, upper or lower case.
pub fn decode_digit(c: u8) -> (value: Option<u8>)
    ensures
        value == digit_value(c),
{
    if 0x30 <= c && c <= 0x39 {
        Some(c - 0x30)
    } else if 0x41 <= c && c <= 0x46 {
        Some(c - 0x41 + 10)
    } else if 0x61 <= c && c <= 0x66 {
        Some(c - 0x61 + 10)
    } else {
        None
    }
}

/// The upper-case digit of the low nibble of `n`.
pub fn encode_digit(n: u8) -> (c: u8)
    ensures
        c == digit(n as int % 16),
{
    let nibble: u8 = n % 16;
    if nibble < 10 {
        0x30 + nibble
    } else {
        0x41 + (nibble - 10)
    }
}

/// Appends the two digits of `b` to `out`.
pub fn push_byte(out: &mut Vec<u8>, b: u8)
    ensures
        final(out)@ == old(out)@ + hex_of_byte(b),
{
    let hi: u8 = encode_digit(b / 16);
    let lo: u8 = encode_digit(b);
    out.push(hi);
    out.push(lo);
}

/// Appends the four digits of `v` to `out`.
pub fn push_u16(out: &mut Vec<u8>, v: u16)
    ensures
        final(out)@ == old(out)@ + hex_of_u16(v),
{
    let hi: u8 = (v / 256) as u8;
    let lo: u8 = (v % 256) as u8;
    push_byte(out, hi);
    push_byte(out, lo);
    proof {
        lemma_hex_of_u16_bytes(v);
    }
}

/// Appends the digits of every byte of `data` to `out`.
pub fn push_bytes(out: &mut Vec<u8>, data: &[u8])
    ensures
        final(out)@ == old(out)@ + hex_of(data@),
{
    let mut i: usize = 0;
    while i < data.len()
        invariant
            i <= data.len(),
            out@ == old(out)@ + hex_of(data@.take(i as int)),
        decreases data.len() - i,
    {
        let b: u8 = data[i];
        push_byte(out, b);
        proof {
            lemma_hex_of_push(data@.take(i as int), b);
        }
        i += 1;
    }
}

/// Decodes hexadecimal text into bytes.
///
/// Fails on an odd number of digits and on any byte that is not a digit.
pub fn decode(text: &[u8]) -> (bytes: Option<Vec<u8>>)
    ensures
        match bytes {
            Some(v) => bytes_of(text@) == Some(v@),
            None => bytes_of(text@) is None,
        },
{
    if text.len() % 2 != 0 {
        return None;
    }
    let count: usize = text.len() / 2;
    let mut out: Vec<u8> = Vec::new();
    let mut i: usize = 0;
    while i < count
        invariant
            i <= count,
            count * 2 == text.len(),
            out.len() == i,
            forall|j: int| 0 <= j < 2 * i ==> (#[trigger] digit_value(text@[j])) is Some,
            forall|k: int| 0 <= k < i ==> out@[k] == pair_value(text@, k),
        decreases count - i,
    {
        let hi: Option<u8> = decode_digit(text[2 * i]);
        let lo: Option<u8> = decode_digit(text[2 * i + 1]);
        match (hi, lo) {
            (Some(h), Some(l)) => {
                let value: u8 = h * 16 + l;
                out.push(value);
            },
            _ => {
                return None;
            },
        }
        i += 1;
    }
    Some(out)
}

/// Decoding undoes encoding, whatever the bytes.
pub proof fn lemma_bytes_of_hex_of(data: Seq<u8>)
    ensures
        hex_of(data).len() == 2 * data.len(),
        bytes_of(hex_of(data)) == Some(data),
{
    let text = hex_of(data);
    assert forall|j: int| 0 <= j < text.len() implies (#[trigger] digit_value(text[j])) is Some by {}
    let back = bytes_of(text).unwrap();
    assert forall|i: int| 0 <= i < data.len() implies back[i] == data[i] by {}
}

/// Encoding one more byte appends its two digits.
pub proof fn lemma_hex_of_push(data: Seq<u8>, b: u8)
    ensures
        hex_of(data.push(b)) == hex_of(data) + hex_of_byte(b),
{
    let whole = hex_of(data.push(b));
    let parts = hex_of(data) + hex_of_byte(b);
    assert forall|j: int| 0 <= j < whole.len() implies whole[j] == parts[j] by {}
}

/// The address digits are those of its two bytes, the high byte first.
pub proof fn lemma_hex_of_u16_bytes(v: u16)
    ensures
        hex_of_u16(v) == hex_of_byte((v / 256) as u8) + hex_of_byte((v % 256) as u8),
{
    assert((v % 256) as u8 as int % 16 == v as int % 16);
}

} // verus!
