//! Printable text at a position of a byte buffer.

use vstd::prelude::*;
use vstd::utf8::{decode_utf8, encode_utf8_decode_utf8, valid_utf8};

use crate::text::utf8_text;

verus! {

/// The supported encoding used for a decoded string within a byte buffer.
#[derive(Clone, Copy, Debug, Eq, PartialEq, Structural)]
pub enum StringEncoding {
    Ascii,
    Utf16Le,
    Utf8,
}

/// Whether a byte is a printable ASCII character, including the space.
pub open spec fn printable(byte: u8) -> bool {
    0x20 <= byte <= 0x7E
}

/// The length of the run of printable ASCII bytes at `from`.
pub open spec fn ascii_run(data: Seq<u8>, from: int) -> nat
    decreases data.len() - from,
{
    if 0 <= from < data.len() && printable(data[from]) {
        1 + ascii_run(data, from + 1)
    } else {
        0
    }
}

/// The length, in characters, of the run of printable UTF-16LE characters at `from`.
pub open spec fn utf16le_run(data: Seq<u8>, from: int) -> nat
    decreases data.len() - from,
{
    if 0 <= from && from + 1 < data.len() && printable(data[from]) && data[from + 1] == 0 {
        1 + utf16le_run(data, from + 2)
    } else {
        0
    }
}

/// The printable ASCII text at `from`.
pub open spec fn ascii_text(data: Seq<u8>, from: int) -> Seq<char> {
    Seq::new(ascii_run(data, from), |i: int| data[from + i] as char)
}

/// The printable UTF-16LE text at `from`.
pub open spec fn utf16le_text(data: Seq<u8>, from: int) -> Seq<char> {
    Seq::new(utf16le_run(data, from), |i: int| data[from + 2 * i] as char)
}

/// The largest `n` up to `limit` for which the first `n` bytes are valid UTF-8.
pub open spec fn valid_prefix(bytes: Seq<u8>, limit: int) -> int
    decreases limit,
{
    if limit <= 0 || valid_utf8(bytes.subrange(0, limit)) {
        limit
    } else {
        valid_prefix(bytes, limit - 1)
    }
}

/// Whether a character is a control character.
pub open spec fn control(c: char) -> bool {
    c <= '\u{1F}' || ('\u{7F}' <= c && c <= '\u{9F}')
}

/// The characters before the first control character at or after `from`.
pub open spec fn before_control(text: Seq<char>, from: int) -> int
    decreases text.len() - from,
{
    if from >= text.len() || control(text[from]) {
        from
    } else {
        before_control(text, from + 1)
    }
}

/// The text encoded in the longest valid prefix of `bytes`, up to its first control character.
pub open spec fn utf8_run_text(bytes: Seq<u8>) -> Seq<char> {
    let text = decode_utf8(bytes.subrange(0, valid_prefix(bytes, bytes.len() as int)));
    text.subrange(0, before_control(text, 0))
}

/// Reports whether a byte is a printable ASCII character, including the space.
pub fn is_printable_ascii(byte: u8) -> (r: bool)
    ensures
        r == printable(byte),
{
    0x20 <= byte && byte <= 0x7E
}

/// Measures the leading run of printable ASCII characters in a buffer.
pub fn ascii_len(data: &[u8]) -> (r: usize)
    ensures
        r == ascii_run(data@, 0),
        r <= data@.len(),
{
    ascii_len_from(data, 0)
}

/// Measures the run of printable ASCII characters at an offset.
pub fn ascii_len_from(data: &[u8], offset: usize) -> (r: usize)
    ensures
        r == ascii_run(data@, offset as int),
        offset <= data@.len() ==> offset + r <= data@.len(),
{
    let mut index: usize = offset;
    while index < data.len() && is_printable_ascii(data[index])
        invariant
            offset <= index,
            offset <= data@.len() ==> index <= data@.len(),
            ascii_run(data@, offset as int) == (index - offset) + ascii_run(data@, index as int),
        decreases data.len() - index,
    {
        index += 1;
    }
    index - offset
}

/// Measures the leading run of printable UTF-16LE characters in a buffer.
pub fn utf16le_len(data: &[u8]) -> (r: usize)
    ensures
        r == utf16le_run(data@, 0),
        2 * r <= data@.len(),
{
    utf16le_len_from(data, 0)
}

/// Measures the run of printable UTF-16LE characters at an offset.
pub fn utf16le_len_from(data: &[u8], offset: usize) -> (r: usize)
    ensures
        r == utf16le_run(data@, offset as int),
        offset <= data@.len() ==> offset + 2 * r <= data@.len(),
{
    let mut length: usize = 0;
    let mut index: usize = offset;
    while index < data.len() && data.len() - index > 1 && is_printable_ascii(data[index])
        && data[index + 1] == 0
        invariant
            index == offset + 2 * length,
            offset <= data@.len() ==> index <= data@.len(),
            utf16le_run(data@, offset as int) == length + utf16le_run(data@, index as int),
        decreases data.len() - index,
    {
        length += 1;
        index += 2;
    }
    length
}

/// Decodes the printable ASCII string beginning at `offset` in a buffer.
pub fn read_ascii(data: &[u8], offset: usize) -> (r: Option<String>)
    ensures
        match r {
            Some(text) => {
                &&& ascii_run(data@, offset as int) > 0
                &&& text@ == ascii_text(data@, offset as int)
            },
            None => ascii_run(data@, offset as int) == 0,
        },
{
    if offset > data.len() {
        return None;
    }
    let length: usize = ascii_len_from(data, offset);
    if length == 0 {
        return None;
    }
    let mut text = String::new();
    let mut index: usize = 0;
    while index < length
        invariant
            index <= length,
            length == ascii_run(data@, offset as int),
            offset + length <= data@.len(),
            data@.len() <= usize::MAX,
            text@ == ascii_text(data@, offset as int).subrange(0, index as int),
        decreases length - index,
    {
        text.push(data[offset + index] as char);
        index += 1;
        assert(text@ =~= ascii_text(data@, offset as int).subrange(0, index as int));
    }
    assert(text@ =~= ascii_text(data@, offset as int));
    Some(text)
}

/// Decodes the printable UTF-16LE string beginning at `offset` in a buffer.
pub fn read_utf16le(data: &[u8], offset: usize) -> (r: Option<String>)
    ensures
        match r {
            Some(text) => {
                &&& utf16le_run(data@, offset as int) > 0
                &&& text@ == utf16le_text(data@, offset as int)
            },
            None => utf16le_run(data@, offset as int) == 0,
        },
{
    if offset > data.len() {
        return None;
    }
    let length: usize = utf16le_len_from(data, offset);
    if length == 0 {
        return None;
    }
    let mut text = String::new();
    let mut index: usize = 0;
    while index < length
        invariant
            index <= length,
            length == utf16le_run(data@, offset as int),
            offset + 2 * length <= data@.len(),
            data@.len() <= usize::MAX,
            text@ == utf16le_text(data@, offset as int).subrange(0, index as int),
        decreases length - index,
    {
        text.push(data[offset + 2 * index] as char);
        index += 1;
        assert(text@ =~= utf16le_text(data@, offset as int).subrange(0, index as int));
    }
    assert(text@ =~= utf16le_text(data@, offset as int));
    Some(text)
}

/// The longest valid prefix is where the largest valid index says.
proof fn lemma_valid_prefix(bytes: Seq<u8>, limit: int, n: int)
    requires
        0 <= n <= limit <= bytes.len(),
        valid_utf8(bytes.subrange(0, n)),
        forall|m: int| n < m <= limit ==> !valid_utf8(#[trigger] bytes.subrange(0, m)),
    ensures
        valid_prefix(bytes, limit) == n,
    decreases limit,
{
    if n < limit {
        assert(!valid_utf8(bytes.subrange(0, limit)));
        lemma_valid_prefix(bytes, limit - 1, n);
    }
}

/// Returns the leading run of printable UTF-8 text in a buffer.
pub fn utf8_run(data: &[u8]) -> (r: String)
    ensures
        r@ == utf8_run_text(data@),
{
    let mut run = String::new();
    let text: &str = match utf8_text(data) {
        Ok(text) => {
            proof {
                assert(data@.subrange(0, data@.len() as int) =~= data@);
                lemma_valid_prefix(data@, data@.len() as int, data@.len() as int);
            }
            text
        },
        Err(valid_length) => {
            proof {
                lemma_valid_prefix(data@, data@.len() as int, valid_length as int);
            }
            match utf8_text(vstd::slice::slice_subrange(data, 0, valid_length)) {
                Ok(text) => text,
                Err(_) => "",
            }
        },
    };
    proof {
        encode_utf8_decode_utf8(text@);
        assert(text@ == decode_utf8(
            data@.subrange(0, valid_prefix(data@, data@.len() as int)),
        ));
    }
    let mut stopped: bool = false;
    for c in chars: text.chars()
        invariant
            chars.seq() == text@,
            stopped ==> run@ == text@.subrange(0, before_control(text@, 0)),
            !stopped ==> run@ == text@.subrange(0, chars.index() as int) && before_control(
                text@,
                0,
            ) == before_control(text@, chars.index() as int),
    {
        if !stopped {
            if c <= '\u{1F}' || ('\u{7F}' <= c && c <= '\u{9F}') {
                stopped = true;
            } else {
                run.push(c);
                assert(run@ =~= text@.subrange(0, chars.index() as int + 1));
            }
        }
    }
    run
}

/// Decodes the printable UTF-8 string beginning at `offset` in a buffer.
pub fn read_utf8(data: &[u8], offset: usize) -> (r: Option<String>)
    ensures
        match r {
            Some(text) => {
                &&& offset <= data@.len()
                &&& text@.len() > 0
                &&& text@ == utf8_run_text(data@.skip(offset as int))
            },
            None => offset > data@.len() || utf8_run_text(data@.skip(offset as int)).len() == 0,
        },
{
    if offset > data.len() {
        return None;
    }
    let region: &[u8] = vstd::slice::slice_subrange(data, offset, data.len());
    assert(region@ =~= data@.skip(offset as int));
    let run = utf8_run(region);
    if run.as_str().is_empty() {
        return None;
    }
    Some(run)
}

} // verus!
