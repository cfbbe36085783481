//! Decoded strings of a mapped image or a stack region.

use vstd::prelude::*;
use vstd::utf8::encode_utf8;

use crate::pe::locate::get_file_offset_from_pe;
use crate::pe::types::{PeValidationError, UnavailablePeRange, ValidatedPeSnapshot};
use crate::process::{ProcessPeValidationError, ValidatedProcessPe};
use crate::progress::{Progress, PROGRESS_BYTE_INTERVAL};
use crate::strings::{
    ascii_len_from, ascii_run, ascii_text, read_ascii, read_utf16le, read_utf8, utf16le_len_from,
    utf16le_run, utf16le_text, utf8_run_text, StringEncoding,
};

verus! {

/// Describes one decoded string found in the loaded main module.
#[derive(Clone, Debug, Eq, PartialEq)]
pub struct MainModuleString {
    pub value: String,
    pub encoding: StringEncoding,
    pub address: usize,
    pub rva: usize,
    pub file_offset: Option<usize>,
}

/// Owns decoded main-module strings and ranges unavailable because the loader discarded them.
#[derive(Clone, Debug, Eq, PartialEq)]
pub struct MainModuleStringCollection {
    pub module_base_address: usize,
    pub module_size: usize,
    pub strings: Vec<MainModuleString>,
    pub unavailable_ranges: Vec<UnavailablePeRange>,
}

/// Explains why main-module string collection could not complete.
#[derive(Clone, Debug, Eq, PartialEq)]
pub enum MainModuleStringCollectionError {
    ProcessValidationFailed(ProcessPeValidationError),
    InvalidMainModulePe(PeValidationError),
}

/// Holds one decoded buffer string before address metadata is attached.
#[derive(Clone, Debug, Eq, PartialEq)]
pub struct DecodedString {
    pub value: String,
    pub encoding: StringEncoding,
    pub offset: usize,
    pub byte_length: usize,
    pub character_count: usize,
}

/// The mathematical value of a decoded string.
pub ghost struct DecodedView {
    pub value: Seq<char>,
    pub encoding: StringEncoding,
    pub offset: usize,
    pub byte_length: usize,
    pub character_count: usize,
}

impl View for DecodedString {
    type V = DecodedView;

    open spec fn view(&self) -> DecodedView {
        DecodedView {
            value: self.value@,
            encoding: self.encoding,
            offset: self.offset,
            byte_length: self.byte_length,
            character_count: self.character_count,
        }
    }
}

/// The string at `offset`: a printable wide run first, then UTF-8 text that goes beyond a
/// printable ASCII run, then that ASCII run.
pub open spec fn string_at(data: Seq<u8>, offset: int) -> Option<DecodedView> {
    let wide = utf16le_run(data, offset);
    let ascii = ascii_run(data, offset);
    let text = utf8_run_text(data.skip(offset));
    if wide > 0 {
        Some(
            DecodedView {
                value: utf16le_text(data, offset),
                encoding: StringEncoding::Utf16Le,
                offset: offset as usize,
                byte_length: (2 * wide) as usize,
                character_count: wide as usize,
            },
        )
    } else if offset + ascii < data.len() && data[offset + ascii] >= 0x80 && encode_utf8(
        text,
    ).len() > ascii {
        Some(
            DecodedView {
                value: text,
                encoding: StringEncoding::Utf8,
                offset: offset as usize,
                byte_length: encode_utf8(text).len() as usize,
                character_count: text.len() as usize,
            },
        )
    } else if ascii > 0 {
        Some(
            DecodedView {
                value: ascii_text(data, offset),
                encoding: StringEncoding::Ascii,
                offset: offset as usize,
                byte_length: ascii as usize,
                character_count: ascii as usize,
            },
        )
    } else {
        None
    }
}

/// Whether `size` zero bytes stand at `at`.
pub open spec fn zeros_at(data: Seq<u8>, at: int, size: int) -> bool {
    at + size <= data.len() && forall|i: int| at <= i < at + size ==> data[i] == 0
}

/// Where the scan goes on behind a string: behind its terminator if it has one, and at least one
/// byte further.
pub open spec fn offset_after(data: Seq<u8>, string: DecodedView) -> int {
    let end = string.offset.saturating_add(string.byte_length) as int;
    let terminator: int = if string.encoding == StringEncoding::Utf16Le {
        2
    } else {
        1
    };
    if zeros_at(data, end, terminator) {
        end + terminator
    } else if end > string.offset {
        end
    } else {
        string.offset + 1
    }
}

/// Encoding a text gives at most the bytes that the text was decoded from.
proof fn lemma_utf8_run_size(bytes: Seq<u8>)
    ensures
        encode_utf8(utf8_run_text(bytes)).len() <= bytes.len(),
        utf8_run_text(bytes).len() <= encode_utf8(utf8_run_text(bytes)).len(),
{
    let n = crate::strings::valid_prefix(bytes, bytes.len() as int);
    lemma_valid_prefix_is_valid(bytes, bytes.len() as int);
    let valid = bytes.subrange(0, n);
    let text = vstd::utf8::decode_utf8(valid);
    let cut = crate::strings::before_control(text, 0);
    lemma_before_control(text, 0);
    vstd::utf8::decode_utf8_encode_utf8(valid);
    lemma_encode_split(text, cut);
    lemma_encode_size(text.subrange(0, cut));
}

/// The longest valid prefix is valid.
proof fn lemma_valid_prefix_is_valid(bytes: Seq<u8>, limit: int)
    requires
        0 <= limit <= bytes.len(),
    ensures
        0 <= crate::strings::valid_prefix(bytes, limit) <= limit,
        vstd::utf8::valid_utf8(
            bytes.subrange(0, crate::strings::valid_prefix(bytes, limit)),
        ),
    decreases limit,
{
    if limit > 0 && !vstd::utf8::valid_utf8(bytes.subrange(0, limit)) {
        lemma_valid_prefix_is_valid(bytes, limit - 1);
    }
}

/// The first control character lies in the text or at its end.
proof fn lemma_before_control(text: Seq<char>, from: int)
    requires
        0 <= from <= text.len(),
    ensures
        from <= crate::strings::before_control(text, from) <= text.len(),
    decreases text.len() - from,
{
    if from < text.len() && !crate::strings::control(text[from]) {
        lemma_before_control(text, from + 1);
    }
}

/// Encoding a text is encoding its parts.
proof fn lemma_encode_split(text: Seq<char>, cut: int)
    requires
        0 <= cut <= text.len(),
    ensures
        encode_utf8(text).len() == encode_utf8(text.subrange(0, cut)).len() + encode_utf8(
            text.skip(cut),
        ).len(),
    decreases cut,
{
    if cut == 0 {
        assert(text.skip(0) =~= text);
        assert(text.subrange(0, 0) =~= Seq::<char>::empty());
    } else {
        let rest = text.drop_first();
        lemma_encode_split(rest, cut - 1);
        assert(text.subrange(0, cut).drop_first() =~= rest.subrange(0, cut - 1));
        assert(text.skip(cut) =~= rest.skip(cut - 1));
        assert(text.subrange(0, cut)[0] == text[0]);
    }
}

/// Every character takes at least one byte.
proof fn lemma_encode_size(text: Seq<char>)
    ensures
        text.len() <= encode_utf8(text).len(),
    decreases text.len(),
{
    if text.len() > 0 {
        lemma_encode_size(text.drop_first());
    }
}

/// A string at an offset is not empty and lies inside the data.
proof fn lemma_string_extent(data: Seq<u8>, offset: int)
    requires
        0 <= offset <= data.len(),
        data.len() <= usize::MAX,
        string_at(data, offset) is Some,
    ensures
        string_at(data, offset)->0.offset == offset,
        string_at(data, offset)->0.byte_length > 0,
        offset + string_at(data, offset)->0.byte_length <= data.len(),
        string_at(data, offset)->0.encoding == StringEncoding::Utf8 ==> {
            &&& encode_utf8(utf8_run_text(data.skip(offset))).len() <= data.len()
            &&& utf8_run_text(data.skip(offset)).len() <= data.len()
        },
{
    lemma_runs_fit(data, offset);
    lemma_utf8_run_size(data.skip(offset));
}

/// Printable runs lie inside the data.
proof fn lemma_runs_fit(data: Seq<u8>, from: int)
    requires
        0 <= from <= data.len(),
    ensures
        from + ascii_run(data, from) <= data.len(),
        from + 2 * utf16le_run(data, from) <= data.len(),
    decreases data.len() - from,
{
    if from < data.len() {
        lemma_runs_fit(data, from + 1);
        if from + 2 <= data.len() {
            lemma_runs_fit(data, from + 2);
        }
    }
}

/// Decodes a supported printable string beginning at an exact byte offset.
pub fn read_string_candidate(data: &[u8], offset: usize) -> (r: Option<DecodedString>)
    ensures
        match r {
            Some(string) => string_at(data@, offset as int) == Some(string@),
            None => string_at(data@, offset as int) is None,
        },
{
    if offset > data.len() {
        return None;
    }
    let wide_length: usize = utf16le_len_from(data, offset);
    assert(offset + 2 * wide_length <= data.len());
    if wide_length > 0 {
        return match read_utf16le(data, offset) {
            Some(value) => Some(
                DecodedString {
                    value,
                    encoding: StringEncoding::Utf16Le,
                    offset,
                    byte_length: wide_length * 2,
                    character_count: wide_length,
                },
            ),
            None => None,
        };
    }
    let ascii_length: usize = ascii_len_from(data, offset);
    assert(offset + ascii_length <= data.len());
    if offset + ascii_length < data.len() && data[offset + ascii_length] >= 0x80 {
        proof {
            lemma_utf8_run_size(data@.skip(offset as int));
        }
        match read_utf8(data, offset) {
            Some(value) => {
                let byte_length: usize = value.as_str().len();
                if byte_length > ascii_length {
                    let character_count: usize = value.as_str().unicode_len();
                    return Some(
                        DecodedString {
                            value,
                            encoding: StringEncoding::Utf8,
                            offset,
                            byte_length,
                            character_count,
                        },
                    );
                }
            },
            None => {
                assert(utf8_run_text(data@.skip(offset as int)) =~= Seq::<char>::empty());
            },
        }
    }
    if ascii_length == 0 {
        return None;
    }
    match read_ascii(data, offset) {
        Some(value) => Some(
            DecodedString {
                value,
                encoding: StringEncoding::Ascii,
                offset,
                byte_length: ascii_length,
                character_count: ascii_length,
            },
        ),
        None => None,
    }
}

/// Computes the next byte offset after a decoded string and its optional NUL terminator.
pub fn next_scan_offset(data: &[u8], candidate: &DecodedString) -> (r: usize)
    requires
        candidate.offset < usize::MAX,
    ensures
        r == offset_after(data@, candidate@),
{
    let string_end: usize = candidate.offset.saturating_add(candidate.byte_length);
    let terminator_size: usize = match candidate.encoding {
        StringEncoding::Utf16Le => 2,
        _ => 1,
    };
    if string_end <= data.len() && data.len() - string_end >= terminator_size && data[string_end]
        == 0 && (terminator_size == 1 || data[string_end + 1] == 0) {
        return string_end + terminator_size;
    }
    if string_end > candidate.offset {
        string_end
    } else {
        candidate.offset + 1
    }
}

/// The strings of at least `minimum` characters from `offset` on, appended to `found`.
pub open spec fn strings_from(
    data: Seq<u8>,
    minimum: int,
    offset: int,
    found: Seq<DecodedView>,
) -> Seq<DecodedView>
    decreases data.len() - offset,
    when 0 <= offset && data.len() <= usize::MAX
    via strings_from_decreases
{
    if offset >= data.len() {
        found
    } else {
        match string_at(data, offset) {
            None => strings_from(data, minimum, offset + 1, found),
            Some(string) => strings_from(
                data,
                minimum,
                offset_after(data, string),
                if string.character_count >= minimum {
                    found.push(string)
                } else {
                    found
                },
            ),
        }
    }
}

#[via_fn]
proof fn strings_from_decreases(
    data: Seq<u8>,
    minimum: int,
    offset: int,
    found: Seq<DecodedView>,
) {
    if offset < data.len() && string_at(data, offset) is Some {
        lemma_string_extent(data, offset);
    }
}

/// The updates of a string scan from `offset` on, the next being due at `next`.
pub open spec fn string_updates_from(
    data: Seq<u8>,
    offset: int,
    next: int,
    updates: Seq<(usize, usize)>,
) -> Seq<(usize, usize)>
    decreases data.len() - offset,
    when 0 <= offset && data.len() <= usize::MAX
    via string_updates_from_decreases
{
    if offset >= data.len() {
        updates
    } else {
        let due = offset >= next;
        let more = if due {
            updates.push((offset as usize, data.len() as usize))
        } else {
            updates
        };
        let later = if due {
            (offset as usize).saturating_add(PROGRESS_BYTE_INTERVAL) as int
        } else {
            next
        };
        match string_at(data, offset) {
            None => string_updates_from(data, offset + 1, later, more),
            Some(string) => string_updates_from(data, offset_after(data, string), later, more),
        }
    }
}

#[via_fn]
proof fn string_updates_from_decreases(
    data: Seq<u8>,
    offset: int,
    next: int,
    updates: Seq<(usize, usize)>,
) {
    if offset < data.len() && string_at(data, offset) is Some {
        lemma_string_extent(data, offset);
    }
}

/// The views of a run of decoded strings.
pub open spec fn decoded_views(strings: Seq<DecodedString>) -> Seq<DecodedView> {
    strings.map_values(|string: DecodedString| string@)
}

/// The least accepted character count: the given one, and one at least.
pub open spec fn effective_minimum(minimum_chars: usize) -> int {
    if minimum_chars == 0 {
        1
    } else {
        minimum_chars as int
    }
}

/// The updates of a whole string scan.
pub open spec fn string_updates(data: Seq<u8>) -> Seq<(usize, usize)> {
    let len = data.len() as usize;
    string_updates_from(data, 0, 0, seq![(0usize, len)]).push((len, len))
}

/// Updates appended to others are the same updates behind them.
proof fn lemma_updates_append(
    data: Seq<u8>,
    offset: int,
    next: int,
    earlier: Seq<(usize, usize)>,
    updates: Seq<(usize, usize)>,
)
    requires
        0 <= offset,
        data.len() <= usize::MAX,
    ensures
        string_updates_from(data, offset, next, earlier + updates) == earlier
            + string_updates_from(data, offset, next, updates),
    decreases data.len() - offset,
{
    if offset < data.len() {
        let due = offset >= next;
        let pair = (offset as usize, data.len() as usize);
        let later = if due {
            (offset as usize).saturating_add(PROGRESS_BYTE_INTERVAL) as int
        } else {
            next
        };
        assert((earlier + updates).push(pair) =~= earlier + updates.push(pair));
        let more = if due {
            updates.push(pair)
        } else {
            updates
        };
        match string_at(data, offset) {
            None => lemma_updates_append(data, offset + 1, later, earlier, more),
            Some(string) => {
                lemma_string_extent(data, offset);
                lemma_updates_append(data, offset_after(data, string), later, earlier, more);
            },
        }
    }
}

/// Collects decoded strings from one already-read contiguous byte buffer.
pub fn collect_buffer_strings<P: Progress>(
    data: &[u8],
    minimum_chars: usize,
    progress: &mut P,
) -> (r: Vec<DecodedString>)
    ensures
        decoded_views(r@) == strings_from(
            data@,
            effective_minimum(minimum_chars),
            0,
            Seq::empty(),
        ),
        final(progress).updates() == old(progress).updates() + string_updates(data@),
{
    let minimum: usize = if minimum_chars == 0 {
        1
    } else {
        minimum_chars
    };
    let len: usize = data.len();
    let ghost earlier = progress.updates();
    let mut results: Vec<DecodedString> = Vec::new();
    let mut offset: usize = 0;
    let mut next_progress_offset: usize = 0;
    progress.update(0, len);
    let ghost expected = strings_from(data@, minimum as int, 0, Seq::empty());
    let ghost reports = string_updates_from(data@, 0, 0, progress.updates());
    proof {
        assert(decoded_views(results@) =~= Seq::<DecodedView>::empty());
        assert(progress.updates() =~= earlier + seq![(0usize, len)]);
        lemma_updates_append(data@, 0, 0, earlier, seq![(0usize, len)]);
    }
    while offset < len
        invariant
            len == data@.len(),
            offset <= len,
            expected == strings_from(
                data@,
                minimum as int,
                offset as int,
                decoded_views(results@),
            ),
            reports == string_updates_from(
                data@,
                offset as int,
                next_progress_offset as int,
                progress.updates(),
            ),
        decreases len - offset,
    {
        if offset >= next_progress_offset {
            progress.update(offset, len);
            next_progress_offset = offset.saturating_add(PROGRESS_BYTE_INTERVAL);
        }
        match read_string_candidate(data, offset) {
            Some(candidate) => {
                proof {
                    lemma_string_extent(data@, offset as int);
                }
                let next_offset: usize = next_scan_offset(data, &candidate);
                let ghost before = results@;
                let ghost found = candidate@;
                if candidate.character_count >= minimum {
                    results.push(candidate);
                    assert(decoded_views(results@) =~= decoded_views(before).push(found));
                }
                offset = next_offset;
            },
            None => {
                offset += 1;
            },
        }
    }
    progress.update(len, len);
    assert(progress.updates() =~= earlier + string_updates(data@));
    results
}

/// Whether strings stand in ascending order without overlap, end at or before `end`, and have at
/// least `minimum` characters.
pub open spec fn strings_ascend(strings: Seq<DecodedView>, minimum: int, end: int) -> bool {
    &&& forall|i: int|
        0 <= i < strings.len() ==> (#[trigger] strings[i]).character_count >= minimum
            && strings[i].byte_length > 0 && strings[i].offset + strings[i].byte_length <= end
    &&& forall|i: int, j: int|
        0 <= i < j < strings.len() ==> (#[trigger] strings[i]).offset + strings[i].byte_length <= (
        #[trigger] strings[j]).offset
}

/// A scan keeps strings ascending.
proof fn lemma_strings_ascend(data: Seq<u8>, minimum: int, offset: int, found: Seq<DecodedView>)
    requires
        0 <= offset <= data.len(),
        data.len() <= usize::MAX,
        strings_ascend(found, minimum, offset),
    ensures
        strings_ascend(strings_from(data, minimum, offset, found), minimum, data.len() as int),
    decreases data.len() - offset,
{
    if offset < data.len() {
        match string_at(data, offset) {
            None => lemma_strings_ascend(data, minimum, offset + 1, found),
            Some(string) => {
                lemma_string_extent(data, offset);
                let more = if string.character_count >= minimum {
                    found.push(string)
                } else {
                    found
                };
                lemma_strings_ascend(data, minimum, offset_after(data, string), more);
            },
        }
    }
}

/// The strings of a buffer have ascending offsets, do not overlap, lie inside the buffer, and have
/// at least the asked number of characters.
pub proof fn law_buffer_strings_ascend(data: Seq<u8>, minimum_chars: usize)
    requires
        data.len() <= usize::MAX,
    ensures
        strings_ascend(
            strings_from(data, effective_minimum(minimum_chars), 0, Seq::empty()),
            effective_minimum(minimum_chars),
            data.len() as int,
        ),
{
    lemma_strings_ascend(data, effective_minimum(minimum_chars), 0, Seq::empty());
}

impl MainModuleString {
    /// This record places `string` in the image of `snapshot` loaded at `base_address`.
    pub open spec fn places(
        &self,
        string: DecodedView,
        base_address: usize,
        snapshot: ValidatedPeSnapshot,
    ) -> bool {
        &&& self.value@ == string.value
        &&& self.encoding == string.encoding
        &&& self.address == base_address + string.offset
        &&& self.rva == string.offset
        &&& self.file_offset == snapshot.pe.file_offset(string.offset as int)
    }
}

/// Collects printable strings from an already validated main-module snapshot.
pub fn collect_main_module_strings_from_snapshot<P: Progress>(
    process: &ValidatedProcessPe,
    snapshot: &ValidatedPeSnapshot,
    minimum_chars: usize,
    progress: &mut P,
) -> (r: MainModuleStringCollection)
    requires
        process.image.base_address + snapshot.bytes@.len() <= usize::MAX,
    ensures
        r.module_base_address == process.image.base_address,
        r.module_size == process.image.image_size,
        r.unavailable_ranges@ == snapshot.unavailable_ranges@,
        ({
            let found = strings_from(
                snapshot.bytes@,
                effective_minimum(minimum_chars),
                0,
                Seq::empty(),
            );
            &&& r.strings@.len() == found.len()
            &&& forall|i: int|
                0 <= i < found.len() ==> (#[trigger] r.strings@[i]).places(
                    found[i],
                    process.image.base_address,
                    *snapshot,
                )
        }),
        final(progress).updates() == old(progress).updates() + string_updates(snapshot.bytes@),
{
    let decoded_strings = collect_buffer_strings(&snapshot.bytes, minimum_chars, progress);
    let ghost found = decoded_views(decoded_strings@);
    proof {
        assert(snapshot.bytes.len() == snapshot.bytes@.len());
        law_buffer_strings_ascend(snapshot.bytes@, minimum_chars);
    }
    let mut records: Vec<MainModuleString> = Vec::with_capacity(decoded_strings.len());
    let mut index: usize = 0;
    while index < decoded_strings.len()
        invariant
            index <= decoded_strings@.len(),
            found == decoded_views(decoded_strings@),
            strings_ascend(
                found,
                effective_minimum(minimum_chars),
                snapshot.bytes@.len() as int,
            ),
            process.image.base_address + snapshot.bytes@.len() <= usize::MAX,
            records@.len() == index,
            forall|i: int|
                0 <= i < index ==> (#[trigger] records@[i]).places(
                    found[i],
                    process.image.base_address,
                    *snapshot,
                ),
        decreases decoded_strings.len() - index,
    {
        let decoded = &decoded_strings[index];
        assert(found[index as int] == decoded@);
        records.push(
            MainModuleString {
                value: decoded.value.clone(),
                encoding: decoded.encoding,
                address: process.image.base_address + decoded.offset,
                rva: decoded.offset,
                file_offset: get_file_offset_from_pe(&snapshot.pe, decoded.offset),
            },
        );
        index += 1;
    }
    MainModuleStringCollection {
        module_base_address: process.image.base_address,
        module_size: process.image.image_size,
        strings: records,
        unavailable_ranges: vstd::slice::slice_to_vec(&snapshot.unavailable_ranges),
    }
}

} // verus!
