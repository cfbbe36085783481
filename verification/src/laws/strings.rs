//! Strings of a buffer, stated over the bytes of the buffer.

use vstd::prelude::*;
use vstd::utf8::{
    char_is_scalar, decode_utf8, decode_utf8_encode_utf8, encode_scalar, encode_utf8,
    encode_utf8_valid_utf8, valid_utf8, valid_utf8_concat,
};

use crate::string_scan::{effective_minimum, offset_after, string_at, strings_from, DecodedView};
use crate::strings::{
    ascii_run, before_control, control, utf16le_run, utf8_run_text, valid_prefix, StringEncoding,
};

verus! {

/// The bytes of one encoded character: an ASCII character is its own byte, any other takes two or
/// more bytes from 0x80 on.
proof fn lemma_character_bytes(c: char)
    ensures
        control(c) <==> (c as u32) <= 0x1F || 0x7F <= c as u32 <= 0x9F,
        c as int == c as u32,
        (c as u32) < 0x80 ==> encode_scalar(c as u32) == seq![(c as u32) as u8],
        (c as u32) >= 0x80 ==> encode_scalar(c as u32).len() >= 2,
        (c as u32) >= 0x80 ==> forall|i: int|
            0 <= i < encode_scalar(c as u32).len() ==> #[trigger] encode_scalar(c as u32)[i] >= 0x80,
{
    let s = c as u32;
    char_is_scalar(c);
    assert(s < 0x80 ==> s & 0x7F == s) by (bit_vector);
    assert forall|x: u8|
        #![auto]
        (0xC0u8 | x) >= 0x80 && (0xE0u8 | x) >= 0x80 && (0xF0u8 | x) >= 0x80 && (0x80u8 | x)
            >= 0x80 by {
        assert((0xC0u8 | x) >= 0x80 && (0xE0u8 | x) >= 0x80 && (0xF0u8 | x) >= 0x80 && (0x80u8 | x)
            >= 0x80) by (bit_vector);
    }
}

/// Encoding a text is encoding its parts.
proof fn lemma_encode_parts(text: Seq<char>, cut: int)
    requires
        0 <= cut <= text.len(),
    ensures
        encode_utf8(text) == encode_utf8(text.subrange(0, cut)) + encode_utf8(text.skip(cut)),
    decreases cut,
{
    if cut == 0 {
        assert(text.skip(0) =~= text);
        assert(text.subrange(0, 0) =~= Seq::<char>::empty());
        assert(encode_utf8(text) =~= encode_utf8(text.subrange(0, 0)) + encode_utf8(text.skip(0)));
    } else {
        let rest = text.drop_first();
        lemma_encode_parts(rest, cut - 1);
        assert(text.subrange(0, cut).drop_first() =~= rest.subrange(0, cut - 1));
        assert(text.skip(cut) =~= rest.skip(cut - 1));
        assert(text.subrange(0, cut)[0] == text[0]);
        assert(encode_utf8(text) =~= encode_utf8(text.subrange(0, cut)) + encode_utf8(
            text.skip(cut),
        ));
    }
}

/// A run of ASCII bytes in an encoded text has no more bytes than the text has characters.
proof fn lemma_ascii_bytes_are_characters(text: Seq<char>, from: int, count: int)
    requires
        0 <= from,
        0 <= count,
        from + count <= encode_utf8(text).len(),
        forall|i: int| from <= i < from + count ==> #[trigger] encode_utf8(text)[i] < 0x80,
    ensures
        count <= text.len(),
    decreases text.len(),
{
    if text.len() > 0 && count > 0 {
        let first = encode_scalar(text[0] as u32);
        let rest = text.drop_first();
        let bytes = encode_utf8(text);
        lemma_character_bytes(text[0]);
        assert(bytes[from] < 0x80);
        if from >= first.len() {
            assert forall|i: int|
                from - first.len() <= i < from - first.len() + count implies #[trigger] encode_utf8(
                rest,
            )[i] < 0x80 by {
                assert(bytes[i + first.len()] < 0x80);
            }
            lemma_ascii_bytes_are_characters(rest, from - first.len(), count);
        } else {
            assert(bytes[from] == first[from]);
            assert forall|i: int| 0 <= i < count - 1 implies #[trigger] encode_utf8(rest)[i]
                < 0x80 by {
                assert(bytes[i + 1] < 0x80);
            }
            lemma_ascii_bytes_are_characters(rest, 0, count - 1);
        }
    }
}

/// The encoded text without control characters has no control byte.
proof fn lemma_no_control_bytes(text: Seq<char>)
    requires
        forall|i: int| 0 <= i < text.len() ==> !control(#[trigger] text[i]),
    ensures
        forall|i: int|
            0 <= i < encode_utf8(text).len() ==> #[trigger] encode_utf8(text)[i] >= 0x20
                && encode_utf8(text)[i] != 0x7F,
    decreases text.len(),
{
    if text.len() > 0 {
        let first = encode_scalar(text[0] as u32);
        let rest = text.drop_first();
        let bytes = encode_utf8(text);
        lemma_character_bytes(text[0]);
        assert(!control(text[0]));
        assert forall|i: int| 0 <= i < rest.len() implies !control(#[trigger] rest[i]) by {
            assert(rest[i] == text[i + 1]);
        }
        lemma_no_control_bytes(rest);
        assert forall|i: int| 0 <= i < bytes.len() implies #[trigger] bytes[i] >= 0x20 && bytes[i]
            != 0x7F by {
            if i < first.len() {
                assert(bytes[i] == first[i]);
            } else {
                assert(bytes[i] == encode_utf8(rest)[i - first.len()]);
            }
        }
    }
}

/// The first control character, and none before it.
proof fn lemma_first_control(text: Seq<char>, from: int)
    requires
        0 <= from <= text.len(),
    ensures
        from <= before_control(text, from) <= text.len(),
        forall|i: int| from <= i < before_control(text, from) ==> !control(#[trigger] text[i]),
        before_control(text, from) < text.len() ==> control(text[before_control(text, from)]),
    decreases text.len() - from,
{
    if from < text.len() && !control(text[from]) {
        lemma_first_control(text, from + 1);
    }
}

/// The longest valid prefix is valid, and none longer is.
proof fn lemma_longest_valid(bytes: Seq<u8>, limit: int)
    requires
        0 <= limit <= bytes.len(),
    ensures
        0 <= valid_prefix(bytes, limit) <= limit,
        valid_utf8(bytes.subrange(0, valid_prefix(bytes, limit))),
        forall|m: int|
            valid_prefix(bytes, limit) < m <= limit ==> !valid_utf8(
                #[trigger] bytes.subrange(0, m),
            ),
    decreases limit,
{
    if limit > 0 && !valid_utf8(bytes.subrange(0, limit)) {
        lemma_longest_valid(bytes, limit - 1);
    }
}

/// A byte below 0x80 is valid UTF-8 by itself.
proof fn lemma_ascii_byte_is_valid(byte: u8)
    requires
        byte < 0x80,
    ensures
        valid_utf8(seq![byte]),
{
    let c = byte as char;
    let text = seq![c];
    lemma_character_bytes(c);
    assert(text.drop_first() =~= Seq::<char>::empty());
    assert(encode_utf8(text.drop_first()) =~= Seq::<u8>::empty());
    assert(encode_utf8(text) =~= seq![byte]);
    encode_utf8_valid_utf8(text);
}

/// What a text that was read as UTF-8 is: the bytes it was read from, without control characters,
/// up to a byte that is no printable ASCII character.
proof fn lemma_run_text(bytes: Seq<u8>)
    ensures
        ({
            let text = utf8_run_text(bytes);
            let size = encode_utf8(text).len() as int;
            &&& size <= bytes.len()
            &&& encode_utf8(text) == bytes.subrange(0, size)
            &&& text.len() <= size
            &&& forall|i: int| 0 <= i < text.len() ==> !control(#[trigger] text[i])
            &&& size < bytes.len() ==> !(0x20 <= bytes[size] <= 0x7E)
        }),
{
    let len = bytes.len() as int;
    lemma_longest_valid(bytes, len);
    let n = valid_prefix(bytes, len);
    let valid = bytes.subrange(0, n);
    let whole = decode_utf8(valid);
    let cut = before_control(whole, 0);
    lemma_first_control(whole, 0);
    let text = utf8_run_text(bytes);
    decode_utf8_encode_utf8(valid);
    lemma_encode_parts(whole, cut);
    let size = encode_utf8(text).len() as int;
    assert(encode_utf8(text) =~= bytes.subrange(0, size));
    assert forall|i: int| 0 <= i < text.len() implies !control(#[trigger] text[i]) by {
        assert(text[i] == whole[i]);
    }
    lemma_text_is_no_longer(text);
    let rest = whole.skip(cut);
    if size < len {
        if cut < whole.len() {
            assert(rest[0] == whole[cut]);
            lemma_character_bytes(rest[0]);
            assert(encode_utf8(rest)[0] == encode_scalar(rest[0] as u32)[0]);
            assert(valid[size] == encode_utf8(rest)[0]);
        } else {
            assert(rest =~= Seq::<char>::empty());
            assert(size == n);
            if bytes[size] < 0x80 {
                lemma_ascii_byte_is_valid(bytes[size]);
                valid_utf8_concat(valid, seq![bytes[size]]);
                assert(valid + seq![bytes[size]] =~= bytes.subrange(0, n + 1));
            }
        }
    }
}

/// A text has no more characters than bytes.
proof fn lemma_text_is_no_longer(text: Seq<char>)
    ensures
        text.len() <= encode_utf8(text).len(),
    decreases text.len(),
{
    if text.len() > 0 {
        lemma_character_bytes(text[0]);
        lemma_text_is_no_longer(text.drop_first());
    }
}

/// A printable ASCII run is as long as its bytes are printable.
proof fn lemma_ascii_run(data: Seq<u8>, from: int)
    requires
        0 <= from <= data.len(),
    ensures
        from + ascii_run(data, from) <= data.len(),
        forall|i: int|
            from <= i < from + ascii_run(data, from) ==> 0x20 <= #[trigger] data[i] <= 0x7E,
        from + ascii_run(data, from) < data.len() ==> !(0x20 <= data[from + ascii_run(data, from)]
            <= 0x7E),
    decreases data.len() - from,
{
    if from < data.len() && 0x20 <= data[from] <= 0x7E {
        lemma_ascii_run(data, from + 1);
    }
}

/// Whether a wide printable character stands at `at`.
pub open spec fn wide_at(data: Seq<u8>, at: int) -> bool {
    0 <= at && at + 1 < data.len() && 0x20 <= data[at] <= 0x7E && data[at + 1] == 0
}

/// A wide run is as long as wide characters stand behind each other.
proof fn lemma_wide_run(data: Seq<u8>, from: int)
    requires
        0 <= from <= data.len(),
    ensures
        from + 2 * utf16le_run(data, from) <= data.len(),
        forall|i: int|
            0 <= i < utf16le_run(data, from) ==> #[trigger] wide_at(data, from + 2 * i),
        !wide_at(data, from + 2 * utf16le_run(data, from)),
    decreases data.len() - from,
{
    if wide_at(data, from) {
        lemma_wide_run(data, from + 2);
        let rest = utf16le_run(data, from + 2);
        assert(utf16le_run(data, from) == 1 + rest);
        assert forall|i: int| 0 <= i < 1 + rest implies #[trigger] wide_at(data, from + 2 * i) by {
            if i > 0 {
                assert(wide_at(data, from + 2 + 2 * (i - 1)));
            }
        }
    }
}

/// Whether a listed string says what its bytes say: printable ASCII up to a byte that is not,
/// printable wide characters up to one that is not, or UTF-8 text without control characters that
/// a byte beyond ASCII sets apart from an ASCII run.
pub open spec fn string_stands(data: Seq<u8>, string: DecodedView) -> bool {
    let from = string.offset as int;
    let end = from + string.byte_length;
    &&& 0 < string.byte_length
    &&& end <= data.len()
    &&& string.character_count == string.value.len()
    &&& match string.encoding {
        StringEncoding::Ascii => {
            &&& string.byte_length == string.value.len()
            &&& forall|i: int|
                from <= i < end ==> 0x20 <= #[trigger] data[i] <= 0x7E && string.value[i - from]
                    == data[i] as char
            &&& end < data.len() ==> !(0x20 <= data[end] <= 0x7E)
            &&& !wide_at(data, from)
        },
        StringEncoding::Utf16Le => {
            &&& string.byte_length == 2 * string.value.len()
            &&& forall|i: int|
                0 <= i < string.value.len() ==> wide_at(data, from + 2 * i)
                    && #[trigger] string.value[i] == data[from + 2 * i] as char
            &&& !wide_at(data, end)
        },
        StringEncoding::Utf8 => {
            &&& encode_utf8(string.value) == data.subrange(from, end)
            &&& forall|i: int|
                0 <= i < string.value.len() ==> {
                    let c = #[trigger] string.value[i] as int;
                    0x20 <= c && !(0x7F <= c <= 0x9F)
                }
            &&& exists|i: int| from <= i < end && #[trigger] data[i] >= 0x80
            &&& end < data.len() ==> !(0x20 <= data[end] <= 0x7E)
            &&& !wide_at(data, from)
        },
    }
}

/// A string at an offset says what its bytes say.
proof fn lemma_string_stands(data: Seq<u8>, offset: int)
    requires
        0 <= offset <= data.len(),
        data.len() <= usize::MAX,
        string_at(data, offset) is Some,
    ensures
        string_at(data, offset)->0.offset == offset,
        string_stands(data, string_at(data, offset)->0),
{
    let string = string_at(data, offset)->0;
    let bytes = data.skip(offset);
    lemma_wide_run(data, offset);
    lemma_ascii_run(data, offset);
    lemma_run_text(bytes);
    let wide = utf16le_run(data, offset);
    let ascii = ascii_run(data, offset);
    match string.encoding {
        StringEncoding::Utf16Le => {
            assert forall|i: int| 0 <= i < string.value.len() implies wide_at(data, offset + 2 * i)
                && #[trigger] string.value[i] == data[offset + 2 * i] as char by {
                assert(wide_at(data, offset + 2 * i));
            }
        },
        StringEncoding::Utf8 => {
            let text = utf8_run_text(bytes);
            let size = encode_utf8(text).len() as int;
            assert(bytes.subrange(0, size) =~= data.subrange(offset, offset + size));
            assert(data[offset + ascii] >= 0x80);
            assert(offset + size < data.len() ==> bytes[size] == data[offset + size]);
            assert(!wide_at(data, offset + 2 * wide));
            assert forall|i: int| 0 <= i < string.value.len() implies ({
                let c = #[trigger] string.value[i] as int;
                0x20 <= c && !(0x7F <= c <= 0x9F)
            }) by {
                assert(!control(text[i]));
                lemma_character_bytes(text[i]);
            }
        },
        StringEncoding::Ascii => {
            assert(!wide_at(data, offset + 2 * wide));
        },
    }
}

/// What was found before stays, and what is found says what its bytes say.
proof fn lemma_scan_keeps(data: Seq<u8>, minimum: int, offset: int, found: Seq<DecodedView>)
    requires
        0 <= offset,
        data.len() <= usize::MAX,
        forall|i: int|
            0 <= i < found.len() ==> string_stands(data, #[trigger] found[i])
                && found[i].character_count >= minimum,
    ensures
        ({
            let all = strings_from(data, minimum, offset, found);
            &&& found.len() <= all.len()
            &&& forall|i: int| 0 <= i < found.len() ==> #[trigger] all[i] == found[i]
            &&& forall|i: int|
                0 <= i < all.len() ==> string_stands(data, #[trigger] all[i])
                    && all[i].character_count >= minimum
        }),
    decreases data.len() - offset,
{
    if offset < data.len() {
        match string_at(data, offset) {
            None => lemma_scan_keeps(data, minimum, offset + 1, found),
            Some(string) => {
                lemma_string_stands(data, offset);
                let more = if string.character_count >= minimum {
                    found.push(string)
                } else {
                    found
                };
                lemma_scan_keeps(data, minimum, offset_after(data, string), more);
                let all = strings_from(data, minimum, offset, found);
                assert forall|i: int| 0 <= i < found.len() implies #[trigger] all[i]
                    == found[i] by {
                    assert(more[i] == found[i]);
                }
            },
        }
    }
}

/// Every listed string says what its bytes say, and has the asked number of characters.
pub proof fn law_listed_strings_stand(data: Seq<u8>, minimum_chars: usize, n: int)
    requires
        data.len() <= usize::MAX,
        0 <= n < strings_from(data, effective_minimum(minimum_chars), 0, Seq::empty()).len(),
    ensures
        ({
            let string = strings_from(data, effective_minimum(minimum_chars), 0, Seq::empty())[n];
            &&& string_stands(data, string)
            &&& string.character_count >= 1
            &&& string.character_count >= minimum_chars
        }),
{
    lemma_scan_keeps(data, effective_minimum(minimum_chars), 0, Seq::empty());
}

/// Whether the string at `o`, if it reaches over `p`, reaches over `size` bytes from there on and
/// has at least `minimum` characters.
spec fn takes_in(data: Seq<u8>, minimum: int, p: int, size: int, o: int) -> bool {
    string_at(data, o) is Some && p < o + string_at(data, o)->0.byte_length ==> {
        &&& string_at(data, o)->0.character_count >= minimum
        &&& p + size <= o + string_at(data, o)->0.byte_length
    }
}

/// A place with a string at it, over which no short string reaches, is inside a listed string.
proof fn lemma_place_is_listed(
    data: Seq<u8>,
    minimum: int,
    offset: int,
    found: Seq<DecodedView>,
    p: int,
    size: int,
) -> (place: (int, int))
    requires
        data.len() <= usize::MAX,
        0 <= offset <= p < data.len(),
        data[p] != 0,
        string_at(data, p) is Some,
        forall|o: int| 0 <= o <= p ==> #[trigger] takes_in(data, minimum, p, size, o),
        forall|i: int|
            0 <= i < found.len() ==> string_stands(data, #[trigger] found[i])
                && found[i].character_count >= minimum,
    ensures
        ({
            let all = strings_from(data, minimum, offset, found);
            let (n, o) = place;
            &&& 0 <= n < all.len()
            &&& 0 <= o <= p
            &&& string_at(data, o) == Some(all[n])
            &&& all[n].offset == o
            &&& p < o + all[n].byte_length
            &&& p + size <= o + all[n].byte_length
        }),
    decreases data.len() - offset,
{
    assert(takes_in(data, minimum, p, size, offset));
    match string_at(data, offset) {
        None => lemma_place_is_listed(data, minimum, offset + 1, found, p, size),
        Some(string) => {
            lemma_string_stands(data, offset);
            let more = if string.character_count >= minimum {
                found.push(string)
            } else {
                found
            };
            let next = offset_after(data, string);
            if p < offset + string.byte_length {
                lemma_scan_keeps(data, minimum, next, more);
                assert(more[found.len() as int] == string);
                (found.len() as int, offset)
            } else {
                let end = offset + string.byte_length;
                assert(end <= p);
                assert(next <= p) by {
                    if crate::string_scan::zeros_at(data, end, next - end) {
                        assert(!(end <= p < next));
                    }
                }
                lemma_place_is_listed(data, minimum, next, more, p, size)
            }
        },
    }
}

/// The bytes of a wide string are characters and zeros in turn.
proof fn lemma_wide_bytes(data: Seq<u8>, string: DecodedView, x: int)
    requires
        string_stands(data, string),
        string.encoding == StringEncoding::Utf16Le,
        string.offset <= x < string.offset + string.byte_length,
    ensures
        (x - string.offset) % 2 == 0 ==> wide_at(data, x),
        (x - string.offset) % 2 == 1 ==> data[x] == 0,
{
    let i = (x - string.offset) / 2;
    assert(0 <= i < string.value.len());
    assert(string.value[i] == data[string.offset + 2 * i] as char);
    assert(wide_at(data, string.offset + 2 * i));
}

/// A string that reaches over a place in a run of printable bytes takes in the run.
proof fn lemma_run_is_taken_in(data: Seq<u8>, minimum: int, p: int, size: int, o: int)
    requires
        data.len() <= usize::MAX,
        0 <= o <= p,
        1 <= minimum <= size,
        p + size <= data.len(),
        forall|i: int| p <= i < p + size ==> 0x20 <= #[trigger] data[i] <= 0x7E,
    ensures
        takes_in(data, minimum, p, size, o),
{
    if string_at(data, o) is Some && p < o + string_at(data, o)->0.byte_length {
        let string = string_at(data, o)->0;
        let end = o + string.byte_length;
        lemma_string_stands(data, o);
        assert(0x20 <= data[p] <= 0x7E);
        match string.encoding {
            StringEncoding::Ascii => {
                if end < p + size {
                    assert(0x20 <= data[end] <= 0x7E);
                }
            },
            StringEncoding::Utf16Le => {
                lemma_wide_bytes(data, string, p);
                if size > 1 {
                    assert(0x20 <= data[p + 1] <= 0x7E);
                }
            },
            StringEncoding::Utf8 => {
                if end < p + size {
                    assert(0x20 <= data[end] <= 0x7E);
                }
                let bytes = encode_utf8(string.value);
                assert forall|i: int| p - o <= i < p - o + size implies #[trigger] bytes[i]
                    < 0x80 by {
                    assert(bytes[i] == data[o + i]);
                }
                lemma_ascii_bytes_are_characters(string.value, p - o, size);
            },
        }
    }
}

/// Every run of printable ASCII bytes that is long enough lies inside a listed string, wherever it
/// begins and whatever follows it.
pub proof fn law_every_printable_run_is_listed(
    data: Seq<u8>,
    minimum_chars: usize,
    p: int,
    size: int,
) -> (n: int)
    requires
        data.len() <= usize::MAX,
        0 <= p,
        1 <= size,
        minimum_chars <= size,
        p + size <= data.len(),
        forall|i: int| p <= i < p + size ==> 0x20 <= #[trigger] data[i] <= 0x7E,
    ensures
        ({
            let all = strings_from(data, effective_minimum(minimum_chars), 0, Seq::empty());
            &&& 0 <= n < all.len()
            &&& all[n].offset <= p
            &&& p + size <= all[n].offset + all[n].byte_length
        }),
{
    let minimum = effective_minimum(minimum_chars);
    lemma_ascii_run(data, p);
    assert(0x20 <= data[p] <= 0x7E);
    assert forall|o: int| 0 <= o <= p implies #[trigger] takes_in(data, minimum, p, size, o) by {
        lemma_run_is_taken_in(data, minimum, p, size, o);
    }
    let place = lemma_place_is_listed(data, minimum, 0, Seq::empty(), p, size);
    place.0
}

/// A run of printable ASCII bytes between bytes that are neither printable nor beyond ASCII, and
/// that is no wide character, is listed by itself: with its offset, its length and its text.
pub proof fn law_separate_printable_run_is_listed(
    data: Seq<u8>,
    minimum_chars: usize,
    p: int,
    size: int,
) -> (n: int)
    requires
        data.len() <= usize::MAX,
        0 <= p,
        1 <= size,
        minimum_chars <= size,
        p + size <= data.len(),
        forall|i: int| p <= i < p + size ==> 0x20 <= #[trigger] data[i] <= 0x7E,
        p > 0 ==> data[p - 1] < 0x20,
        p + size < data.len() ==> data[p + size] < 0x20 || data[p + size] == 0x7F,
        size == 1 ==> p + 1 == data.len() || data[p + 1] != 0,
    ensures
        ({
            let all = strings_from(data, effective_minimum(minimum_chars), 0, Seq::empty());
            &&& 0 <= n < all.len()
            &&& all[n].encoding == StringEncoding::Ascii
            &&& all[n].offset == p
            &&& all[n].byte_length == size
            &&& all[n].character_count == size
            &&& all[n].value.len() == size
            &&& forall|i: int| 0 <= i < size ==> #[trigger] all[n].value[i] == data[p + i] as char
        }),
{
    let all = strings_from(data, effective_minimum(minimum_chars), 0, Seq::empty());
    let n = law_every_printable_run_is_listed(data, minimum_chars, p, size);
    law_listed_strings_stand(data, minimum_chars, n);
    let string = all[n];
    let o = string.offset as int;
    let end = o + string.byte_length;
    assert(0x20 <= data[p] <= 0x7E);
    if size > 1 {
        assert(0x20 <= data[p + 1] <= 0x7E);
    }
    match string.encoding {
        StringEncoding::Ascii => {
            if o < p {
                assert(0x20 <= data[p - 1] <= 0x7E);
            }
            if p + size < end {
                assert(0x20 <= data[p + size] <= 0x7E);
            }
            assert forall|i: int| 0 <= i < size implies #[trigger] string.value[i] == data[p
                + i] as char by {
                assert(0x20 <= data[p + i] <= 0x7E && string.value[p + i - o] == data[p
                    + i] as char);
            }
        },
        StringEncoding::Utf16Le => {
            lemma_wide_bytes(data, string, p);
        },
        StringEncoding::Utf8 => {
            assert forall|i: int| 0 <= i < string.value.len() implies !control(
                #[trigger] string.value[i],
            ) by {
                lemma_character_bytes(string.value[i]);
            }
            lemma_no_control_bytes(string.value);
            let bytes = encode_utf8(string.value);
            if o < p {
                assert(bytes[p - 1 - o] == data[p - 1]);
            }
            if p + size < end {
                assert(bytes[p + size - o] == data[p + size]);
            }
            let far = choose|i: int| o <= i < end && #[trigger] data[i] >= 0x80;
            assert(p <= far < p + size);
        },
    }
    n
}

/// No ASCII or UTF-8 string reaches over a control byte.
proof fn lemma_no_control_inside(data: Seq<u8>, string: DecodedView, x: int)
    requires
        string_stands(data, string),
        string.encoding != StringEncoding::Utf16Le,
        string.offset <= x < string.offset + string.byte_length,
    ensures
        data[x] >= 0x20,
{
    if string.encoding == StringEncoding::Utf8 {
        assert forall|i: int| 0 <= i < string.value.len() implies !control(
            #[trigger] string.value[i],
        ) by {
            lemma_character_bytes(string.value[i]);
        }
        lemma_no_control_bytes(string.value);
        assert(encode_utf8(string.value)[x - string.offset] == data[x]);
    }
}

/// A string that reaches over the first of some wide characters behind a control byte takes them
/// in.
proof fn lemma_wide_is_taken_in(data: Seq<u8>, minimum: int, p: int, count: int, o: int)
    requires
        data.len() <= usize::MAX,
        0 <= o <= p,
        1 <= minimum <= count,
        forall|i: int| 0 <= i < count ==> #[trigger] wide_at(data, p + 2 * i),
        p > 0 ==> data[p - 1] < 0x20,
    ensures
        takes_in(data, minimum, p, 2 * count, o),
        string_at(data, o) is Some && p < o + string_at(data, o)->0.byte_length ==> string_at(
            data,
            o,
        )->0.encoding == StringEncoding::Utf16Le,
{
    assert(wide_at(data, p + 2 * 0));
    if string_at(data, o) is Some && p < o + string_at(data, o)->0.byte_length {
        let string = string_at(data, o)->0;
        let end = o + string.byte_length;
        lemma_string_stands(data, o);
        if string.encoding != StringEncoding::Utf16Le {
            if o < p {
                lemma_no_control_inside(data, string, p - 1);
            }
        } else {
            lemma_wide_bytes(data, string, p);
            let c = (end - p) / 2;
            assert(end == p + 2 * c);
            if c < count {
                assert(wide_at(data, p + 2 * c));
            }
        }
    }
}

/// Printable wide characters that are enough, at the start or behind a control byte, lie inside a
/// listed wide string.
pub proof fn law_every_wide_run_is_listed(
    data: Seq<u8>,
    minimum_chars: usize,
    p: int,
    count: int,
) -> (n: int)
    requires
        data.len() <= usize::MAX,
        0 <= p,
        1 <= count,
        minimum_chars <= count,
        forall|i: int| 0 <= i < count ==> #[trigger] wide_at(data, p + 2 * i),
        p > 0 ==> data[p - 1] < 0x20,
    ensures
        ({
            let all = strings_from(data, effective_minimum(minimum_chars), 0, Seq::empty());
            &&& 0 <= n < all.len()
            &&& all[n].encoding == StringEncoding::Utf16Le
            &&& all[n].offset <= p
            &&& p + 2 * count <= all[n].offset + all[n].byte_length
        }),
{
    let minimum = effective_minimum(minimum_chars);
    assert(wide_at(data, p + 2 * 0));
    lemma_wide_run(data, p);
    assert(string_at(data, p) is Some);
    assert forall|o: int| 0 <= o <= p implies #[trigger] takes_in(
        data,
        minimum,
        p,
        2 * count,
        o,
    ) by {
        lemma_wide_is_taken_in(data, minimum, p, count, o);
    }
    let place = lemma_place_is_listed(data, minimum, 0, Seq::empty(), p, 2 * count);
    lemma_wide_is_taken_in(data, minimum, p, count, place.1);
    place.0
}

/// A text whose bytes begin those of another text begins that text.
proof fn lemma_text_prefix(text: Seq<char>, whole: Seq<char>)
    requires
        encode_utf8(text).len() <= encode_utf8(whole).len(),
        encode_utf8(whole).subrange(0, encode_utf8(text).len() as int) == encode_utf8(text),
    ensures
        text.len() <= whole.len(),
        whole.subrange(0, text.len() as int) == text,
    decreases text.len(),
{
    if text.len() == 0 {
        assert(whole.subrange(0, 0) =~= text);
    } else {
        let short = encode_utf8(text);
        let long = encode_utf8(whole);
        lemma_character_bytes(text[0]);
        assert(short.len() > 0);
        assert(whole.len() > 0);
        vstd::utf8::encode_utf8_first_scalar(text);
        vstd::utf8::encode_utf8_first_scalar(whole);
        assert forall|i: int| 0 <= i < short.len() implies #[trigger] short[i] == long[i] by {
            assert(long.subrange(0, short.len() as int)[i] == long[i]);
        }
        assert(short[0] == long[0]);
        let width = encode_scalar(text[0] as u32).len() as int;
        assert(width <= short.len());
        assert(width > 1 ==> short[1] == long[1]);
        assert(width > 2 ==> short[2] == long[2]);
        assert(width > 3 ==> short[3] == long[3]);
        assert(text[0] as u32 == whole[0] as u32);
        lemma_character_bytes(whole[0]);
        assert(text[0] == whole[0]);
        let rest = text.drop_first();
        let others = whole.drop_first();
        assert(encode_utf8(rest) =~= short.subrange(width, short.len() as int));
        assert(encode_utf8(others) =~= long.subrange(width, long.len() as int));
        assert(encode_utf8(others).subrange(0, encode_utf8(rest).len() as int) =~= encode_utf8(
            rest,
        ));
        lemma_text_prefix(rest, others);
        assert(whole.subrange(0, text.len() as int) =~= text) by {
            assert forall|i: int| 0 <= i < text.len() implies whole[i] == text[i] by {
                if i > 0 {
                    assert(others.subrange(0, rest.len() as int)[i - 1] == rest[i - 1]);
                }
            }
        }
    }
}

/// A text without control characters whose bytes stand first is read whole.
proof fn lemma_text_is_read(bytes: Seq<u8>, text: Seq<char>)
    requires
        encode_utf8(text).len() <= bytes.len(),
        bytes.subrange(0, encode_utf8(text).len() as int) == encode_utf8(text),
        forall|i: int| 0 <= i < text.len() ==> !control(#[trigger] text[i]),
    ensures
        encode_utf8(utf8_run_text(bytes)).len() >= encode_utf8(text).len(),
        utf8_run_text(bytes).len() >= text.len(),
{
    let size = encode_utf8(text).len() as int;
    let len = bytes.len() as int;
    encode_utf8_valid_utf8(text);
    lemma_longest_valid(bytes, len);
    let n = valid_prefix(bytes, len);
    if n < size {
        assert(!valid_utf8(bytes.subrange(0, size)));
    }
    let valid = bytes.subrange(0, n);
    let whole = decode_utf8(valid);
    decode_utf8_encode_utf8(valid);
    assert(valid.subrange(0, size) =~= bytes.subrange(0, size));
    lemma_text_prefix(text, whole);
    lemma_first_control(whole, 0);
    let cut = before_control(whole, 0);
    if cut < text.len() {
        assert(whole.subrange(0, text.len() as int)[cut] == whole[cut]);
        assert(!control(text[cut]));
    }
    let read = whole.subrange(0, cut);
    lemma_encode_parts(read, text.len() as int);
    assert(read.subrange(0, text.len() as int) =~= text);
}

/// A string that reaches over the first byte of a text behind a control byte takes the text in.
proof fn lemma_text_is_taken_in(data: Seq<u8>, minimum: int, p: int, text: Seq<char>, o: int)
    requires
        data.len() <= usize::MAX,
        0 <= o <= p,
        1 <= minimum <= text.len(),
        p + encode_utf8(text).len() <= data.len(),
        data.subrange(p, p + encode_utf8(text).len()) == encode_utf8(text),
        forall|i: int| 0 <= i < text.len() ==> !control(#[trigger] text[i]),
        p > 0 ==> data[p - 1] < 0x20,
    ensures
        takes_in(data, minimum, p, encode_utf8(text).len() as int, o),
{
    if string_at(data, o) is Some && p < o + string_at(data, o)->0.byte_length {
        let string = string_at(data, o)->0;
        let end = o + string.byte_length;
        let size = encode_utf8(text).len() as int;
        lemma_string_stands(data, o);
        lemma_no_control_bytes(text);
        lemma_text_is_no_longer(text);
        assert(encode_utf8(text)[0] == data[p]);
        if string.encoding == StringEncoding::Utf16Le {
            lemma_wide_bytes(data, string, p);
            if size > 1 {
                assert(encode_utf8(text)[1] == data[p + 1]);
            }
        } else {
            if o < p {
                lemma_no_control_inside(data, string, p - 1);
            }
            let bytes = data.skip(p);
            assert(bytes.subrange(0, size) =~= data.subrange(p, p + size));
            lemma_text_is_read(bytes, text);
            if string.encoding == StringEncoding::Ascii && end < p + size {
                assert(encode_utf8(text)[end - p] == data[end]);
            }
        }
    }
}

/// UTF-8 text without control characters that is long enough, at the start or behind a control
/// byte, lies inside a listed string.
pub proof fn law_every_utf8_text_is_listed(
    data: Seq<u8>,
    minimum_chars: usize,
    p: int,
    text: Seq<char>,
) -> (n: int)
    requires
        data.len() <= usize::MAX,
        0 <= p,
        1 <= text.len(),
        minimum_chars <= text.len(),
        p + encode_utf8(text).len() <= data.len(),
        data.subrange(p, p + encode_utf8(text).len()) == encode_utf8(text),
        forall|i: int|
            0 <= i < text.len() ==> 0x20 <= #[trigger] text[i] as int && !(0x7F <= text[i] as int
                <= 0x9F),
        p > 0 ==> data[p - 1] < 0x20,
    ensures
        ({
            let all = strings_from(data, effective_minimum(minimum_chars), 0, Seq::empty());
            &&& 0 <= n < all.len()
            &&& all[n].offset <= p
            &&& p + encode_utf8(text).len() <= all[n].offset + all[n].byte_length
        }),
{
    let minimum = effective_minimum(minimum_chars);
    let size = encode_utf8(text).len() as int;
    assert forall|i: int| 0 <= i < text.len() implies !control(#[trigger] text[i]) by {
        lemma_character_bytes(text[i]);
    }
    lemma_text_is_no_longer(text);
    lemma_no_control_bytes(text);
    assert(encode_utf8(text)[0] == data[p]);
    let bytes = data.skip(p);
    assert(bytes.subrange(0, size) =~= data.subrange(p, p + size));
    lemma_text_is_read(bytes, text);
    lemma_ascii_run(data, p);
    assert(string_at(data, p) is Some);
    assert forall|o: int| 0 <= o <= p implies #[trigger] takes_in(data, minimum, p, size, o) by {
        lemma_text_is_taken_in(data, minimum, p, text, o);
    }
    let place = lemma_place_is_listed(data, minimum, 0, Seq::empty(), p, size);
    place.0
}

} // verus!
