//! Text building and decoding.

use vstd::prelude::*;
use vstd::utf8::{decode_utf8, encode_utf8, encode_utf8_decode_utf8, valid_utf8};

use crate::bytes::{bytes_equal, find_nul, lemma_nul_index, nul_index};

verus! {

/// The text that `String::from_utf8_lossy` makes of `bytes`.
pub uninterp spec fn lossy_text(bytes: Seq<u8>) -> Seq<char>;

/// Calls `String::from_utf8_lossy`. The result depends on the bytes alone; on valid UTF-8 it is
/// the encoded text. Which replacement characters stand for an invalid sequence is left unsaid.
#[verifier::external_body]
pub(crate) fn utf8_lossy(bytes: &[u8]) -> (r: String)
    ensures
        r@ == lossy_text(bytes@),
        valid_utf8(bytes@) ==> r@ == decode_utf8(bytes@),
{
    String::from_utf8_lossy(bytes).into_owned()
}

/// Calls `std::str::from_utf8`, which gives the encoded text of valid UTF-8 and of nothing else.
/// Of other bytes its error tells, as `valid_up_to`, the largest index up to which they are valid.
#[verifier::external_body]
pub(crate) fn utf8_text(bytes: &[u8]) -> (r: Result<&str, usize>)
    ensures
        r is Ok <==> valid_utf8(bytes@),
        match r {
            Ok(text) => encode_utf8(text@) == bytes@,
            Err(end) => {
                &&& end <= bytes@.len()
                &&& valid_utf8(bytes@.subrange(0, end as int))
                &&& forall|m: int|
                    end < m <= bytes@.len() ==> !valid_utf8(#[trigger] bytes@.subrange(0, m))
            },
        },
{
    std::str::from_utf8(bytes).map_err(|error| error.valid_up_to())
}

/// `String::push` appends one character.
pub assume_specification[ String::push ](s: &mut String, c: char)
    ensures
        final(s)@ == old(s)@.push(c),
;

/// Reports whether two texts are the same.
pub fn text_equal(left: &str, right: &str) -> (r: bool)
    ensures
        r == (left@ == right@),
{
    let same: bool = bytes_equal(left.as_bytes(), right.as_bytes());
    proof {
        encode_utf8_decode_utf8(left@);
        encode_utf8_decode_utf8(right@);
    }
    same
}

/// The ASCII lower-case form of a character.
pub open spec fn lower_char(c: char) -> char {
    if 'A' <= c && c <= 'Z' {
        ((c as u8) + 32) as u8 as char
    } else {
        c
    }
}

/// The text with its ASCII upper-case letters lowered.
pub open spec fn lower_text(text: Seq<char>) -> Seq<char> {
    text.map_values(|c: char| lower_char(c))
}

/// Lowers the ASCII upper-case letters of a text.
pub fn ascii_lowercase(text: &str) -> (r: String)
    ensures
        r@ == lower_text(text@),
{
    let count: usize = text.unicode_len();
    let mut lowered = String::new();
    let mut index: usize = 0;
    while index < count
        invariant
            count == text@.len(),
            index <= count,
            lowered@ == lower_text(text@).subrange(0, index as int),
        decreases count - index,
    {
        let c: char = text.get_char(index);
        if 'A' <= c && c <= 'Z' {
            lowered.push(((c as u8) + 32) as char);
        } else {
            lowered.push(c);
        }
        index += 1;
        assert(lowered@ =~= lower_text(text@).subrange(0, index as int));
    }
    assert(lower_text(text@).subrange(0, index as int) =~= lower_text(text@));
    lowered
}

/// The character of a digit below sixteen.
pub open spec fn digit(value: int) -> char {
    if value < 10 {
        (0x30 + value) as u8 as char
    } else {
        (0x37 + value) as u8 as char
    }
}

/// The decimal digits of `value`.
pub open spec fn decimal(value: nat) -> Seq<char>
    decreases value,
{
    if value < 10 {
        seq![digit(value as int)]
    } else {
        decimal(value / 10).push(digit((value % 10) as int))
    }
}

/// The upper-case hexadecimal digits of `value`.
pub open spec fn hex(value: nat) -> Seq<char>
    decreases value,
{
    if value < 16 {
        seq![digit(value as int)]
    } else {
        hex(value / 16).push(digit((value % 16) as int))
    }
}

/// The upper-case hexadecimal digits of `value`, with zeros in front up to `width` digits.
pub open spec fn hexadecimal(value: nat, width: nat) -> Seq<char> {
    let plain = hex(value);
    if plain.len() >= width {
        plain
    } else {
        Seq::new((width - plain.len()) as nat, |i: int| '0') + plain
    }
}

/// The character of a digit below sixteen.
fn digit_char(value: u8) -> (r: char)
    requires
        value < 16,
    ensures
        r == digit(value as int),
{
    if value < 10 {
        (0x30 + value) as char
    } else {
        (0x37 + value) as char
    }
}

/// Appends the decimal digits of `value`.
pub fn push_decimal(text: &mut String, value: u64)
    ensures
        final(text)@ == old(text)@ + decimal(value as nat),
    decreases value,
{
    let ghost before = text@;
    if value >= 10 {
        push_decimal(text, value / 10);
    }
    text.push(digit_char((value % 10) as u8));
    assert(text@ =~= before + decimal(value as nat));
}

/// Appends the upper-case hexadecimal digits of `value`, and returns how many there are.
fn push_hex(text: &mut String, value: u64) -> (r: u64)
    ensures
        final(text)@ == old(text)@ + hex(value as nat),
        r == hex(value as nat).len(),
        r <= value / 16 + 1,
    decreases value,
{
    let ghost before = text@;
    let mut count: u64 = 0;
    if value >= 16 {
        count = push_hex(text, value / 16);
    }
    text.push(digit_char((value % 16) as u8));
    assert(text@ =~= before + hex(value as nat));
    count + 1
}

/// The upper-case hexadecimal form of `value` with `0x` and at least `width` digits.
pub fn prefixed_hex(value: u64, width: usize) -> (r: String)
    ensures
        r@ == "0x"@ + hexadecimal(value as nat, width as nat),
{
    let text = hex_digits(value, width);
    let mut prefixed = String::new();
    proof {
        reveal_strlit("0x");
    }
    prefixed.push('0');
    prefixed.push('x');
    assert(prefixed@ =~= "0x"@);
    prefixed.append(text.as_str());
    prefixed
}

/// The upper-case hexadecimal digits of `value`, at least `width` of them.
pub fn hex_digits(value: u64, width: usize) -> (r: String)
    ensures
        r@ == hexadecimal(value as nat, width as nat),
{
    let mut plain = String::new();
    let count: u64 = push_hex(&mut plain, value);
    assert(plain@ =~= hex(value as nat));
    if count >= width as u64 {
        return plain;
    }
    let missing: usize = width - count as usize;
    let mut text = String::new();
    let mut index: usize = 0;
    while index < missing
        invariant
            index <= missing,
            text@ == Seq::new(index as nat, |i: int| '0'),
        decreases missing - index,
    {
        text.push('0');
        index += 1;
        assert(text@ =~= Seq::new(index as nat, |i: int| '0'));
    }
    text.append(plain.as_str());
    text
}

/// The text of a number sign and a decimal number.
pub fn number_sign(value: u16) -> (r: String)
    ensures
        r@ == seq!['#'] + decimal(value as nat),
{
    let mut text = String::new();
    text.push('#');
    assert(text@ =~= seq!['#']);
    push_decimal(&mut text, value as u64);
    text
}

/// The text of the zero-terminated run of bytes at `from`, when it is valid UTF-8.
pub open spec fn c_string(data: Seq<u8>, from: int) -> Option<Seq<char>> {
    let end = nul_index(data, from);
    if 0 <= from < data.len() && end < data.len() && valid_utf8(data.subrange(from, end)) {
        Some(decode_utf8(data.subrange(from, end)))
    } else {
        None
    }
}

/// Reads the zero-terminated UTF-8 string at an offset.
pub fn read_c_string(data: &[u8], from: usize) -> (r: Option<String>)
    ensures
        match r {
            Some(text) => c_string(data@, from as int) == Some(text@),
            None => c_string(data@, from as int) is None,
        },
{
    let end: usize = match find_nul(data, from) {
        Some(value) => value,
        None => return None,
    };
    assert(data.len() == data@.len());
    proof {
        lemma_nul_index(data@, from as int);
    }
    match utf8_text(vstd::slice::slice_subrange(data, from, end)) {
        Ok(text) => {
            proof {
                encode_utf8_decode_utf8(text@);
            }
            Some(text.to_owned())
        },
        Err(_) => None,
    }
}

} // verus!
