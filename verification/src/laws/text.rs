//! Written numbers and names, stated over their characters.

use vstd::prelude::*;

use crate::layout::{joined, sha256_digest};
use crate::text::{decimal, digit, hex, hexadecimal};

verus! {

/// The number that a digit stands for.
pub open spec fn digit_value(c: char) -> int {
    if c <= '9' {
        c as int - 48
    } else {
        c as int - 55
    }
}

/// The number that digits stand for in a base.
pub open spec fn number_value(text: Seq<char>, base: int) -> int
    decreases text.len(),
{
    if text.len() == 0 {
        0
    } else {
        number_value(text.drop_last(), base) * base + digit_value(text.last())
    }
}

/// A digit stands for its number, and is a decimal digit or an upper-case letter up to `F`.
proof fn lemma_digit(value: int)
    requires
        0 <= value < 16,
    ensures
        digit_value(digit(value)) == value,
        value < 10 ==> '0' <= digit(value) <= '9',
        value >= 10 ==> 'A' <= digit(value) <= 'F',
{
}

/// Decimal digits stand for the number that was written, without zeros in front.
pub proof fn law_decimal_is_read_back(value: nat)
    ensures
        number_value(decimal(value), 10) == value,
        decimal(value).len() >= 1,
        forall|i: int| 0 <= i < decimal(value).len() ==> '0' <= #[trigger] decimal(value)[i] <= '9',
        value > 0 ==> decimal(value)[0] != '0',
    decreases value,
{
    lemma_digit((value % 10) as int);
    if value < 10 {
        let text = decimal(value);
        lemma_digit(value as int);
        assert(text.drop_last() =~= Seq::<char>::empty());
        assert(number_value(text.drop_last(), 10) == 0);
    } else {
        law_decimal_is_read_back(value / 10);
        let text = decimal(value);
        let front = decimal(value / 10);
        assert(text.drop_last() =~= front);
        assert forall|i: int| 0 <= i < text.len() implies '0' <= #[trigger] text[i] <= '9' by {
            if i < front.len() {
                assert(text[i] == front[i]);
            }
        }
        assert(text[0] == front[0]);
    }
}

/// Hexadecimal digits stand for the number that was written.
proof fn lemma_hex(value: nat)
    ensures
        number_value(hex(value), 16) == value,
        hex(value).len() >= 1,
        forall|i: int|
            0 <= i < hex(value).len() ==> ('0' <= #[trigger] hex(value)[i] <= '9') || ('A' <= hex(
                value,
            )[i] <= 'F'),
        value > 0 ==> hex(value)[0] != '0',
    decreases value,
{
    lemma_digit((value % 16) as int);
    if value < 16 {
        let text = hex(value);
        lemma_digit(value as int);
        assert(text.drop_last() =~= Seq::<char>::empty());
        assert(number_value(text.drop_last(), 16) == 0);
    } else {
        lemma_hex(value / 16);
        let text = hex(value);
        let front = hex(value / 16);
        assert(text.drop_last() =~= front);
        assert forall|i: int| 0 <= i < text.len() implies ('0' <= #[trigger] text[i] <= '9') || (
        'A' <= text[i] <= 'F') by {
            if i < front.len() {
                assert(text[i] == front[i]);
            }
        }
        assert(text[0] == front[0]);
    }
}

/// Zeros in front leave a number as it is.
proof fn lemma_zeros_in_front(zeros: nat, text: Seq<char>, base: int)
    requires
        0 < base,
    ensures
        number_value(Seq::new(zeros, |i: int| '0') + text, base) == number_value(text, base),
    decreases text.len(), zeros,
{
    let front = Seq::new(zeros, |i: int| '0');
    let whole = front + text;
    if text.len() > 0 {
        assert(whole.drop_last() =~= front + text.drop_last());
        assert(whole.last() == text.last());
        lemma_zeros_in_front(zeros, text.drop_last(), base);
    } else if zeros > 0 {
        let fewer = Seq::new((zeros - 1) as nat, |i: int| '0');
        assert(whole.drop_last() =~= fewer + text);
        assert(whole.last() == '0');
        lemma_zeros_in_front((zeros - 1) as nat, text, base);
        assert(number_value(whole, base) == 0 * base + 0);
    } else {
        assert(whole =~= text);
    }
}

/// Padded hexadecimal digits stand for the number that was written; there are as many as asked for,
/// or as many as the number needs.
pub proof fn law_hexadecimal_is_read_back(value: nat, width: nat)
    ensures
        number_value(hexadecimal(value, width), 16) == value,
        hexadecimal(value, width).len() >= width,
        hexadecimal(value, width).len() > width && value > 0 ==> hexadecimal(value, width)[0]
            != '0',
        forall|i: int|
            0 <= i < hexadecimal(value, width).len() ==> ('0' <= #[trigger] hexadecimal(
                value,
                width,
            )[i] <= '9') || ('A' <= hexadecimal(value, width)[i] <= 'F'),
{
    lemma_hex(value);
    let plain = hex(value);
    if plain.len() < width {
        let zeros = (width - plain.len()) as nat;
        lemma_zeros_in_front(zeros, plain, 16);
        let text = hexadecimal(value, width);
        assert forall|i: int| 0 <= i < text.len() implies ('0' <= #[trigger] text[i] <= '9') || (
        'A' <= text[i] <= 'F') by {
            if i >= zeros {
                assert(text[i] == plain[i - zeros]);
            }
        }
    }
}

/// A digest is sixty-four hexadecimal digits.
pub proof fn law_digests(text: Seq<char>)
    ensures
        sha256_digest(text) <==> text.len() == 64 && forall|i: int|
            0 <= i < text.len() ==> ('0' <= #[trigger] text[i] <= '9') || ('a' <= text[i] <= 'f')
                || ('A' <= text[i] <= 'F'),
{
    if text.len() == 64 && forall|i: int|
        0 <= i < text.len() ==> ('0' <= #[trigger] text[i] <= '9') || ('a' <= text[i] <= 'f') || (
        'A' <= text[i] <= 'F') {
        assert forall|i: int| 0 <= i < text.len() implies crate::layout::is_hex_digit(
            #[trigger] text[i],
        ) by {}
    }
    if sha256_digest(text) {
        assert forall|i: int| 0 <= i < text.len() implies ('0' <= #[trigger] text[i] <= '9') || (
        'a' <= text[i] <= 'f') || ('A' <= text[i] <= 'F') by {
            assert(crate::layout::is_hex_digit(text[i]));
        }
    }
}

/// A joined path begins with its directory, ends with its name, and has one separator between them
/// where the directory has none at its end.
pub proof fn law_joined_paths(directory: Seq<char>, separator: char, name: Seq<char>)
    requires
        0 < directory.len(),
    ensures
        ({
            let path = joined(directory, separator, name);
            let between = path.len() - directory.len() - name.len();
            &&& path.subrange(0, directory.len() as int) == directory
            &&& path.subrange(path.len() - name.len(), path.len() as int) == name
            &&& between == 0 <==> directory.last() == separator
            &&& between == 0 || between == 1 && path[directory.len() as int] == separator
        }),
{
    let path = joined(directory, separator, name);
    assert(path.subrange(0, directory.len() as int) =~= directory);
    assert(path.subrange(path.len() - name.len(), path.len() as int) =~= name);
}

} // verus!
