//! Imports, stated over the bytes of the import directory.

use vstd::prelude::*;
use vstd::utf8::{decode_utf8, valid_utf8};

use crate::bytes::{le32, le64, lemma_nul_index, nul_index};
use crate::imports::parsing::{
    descriptor_entries, import_entries, table_entries, thunk_step, ImportDescriptor,
    ImportDescriptorTable, ImportEntryView, ThunkStep,
};
use crate::pe::types::PeImage;
use crate::text::{c_string, decimal};

verus! {

/// Whether a zero-terminated text that is valid UTF-8 stands from `from` up to the zero at `end`.
pub open spec fn text_stands(data: Seq<u8>, from: int, end: int) -> bool {
    &&& 0 <= from <= end < data.len()
    &&& data[end] == 0
    &&& forall|x: int| from <= x < end ==> #[trigger] data[x] != 0
    &&& valid_utf8(data.subrange(from, end))
}

/// A text that stands somewhere is read from there.
pub proof fn lemma_text_stands(data: Seq<u8>, from: int, end: int)
    requires
        text_stands(data, from, end),
    ensures
        c_string(data, from) == Some(decode_utf8(data.subrange(from, end))),
{
    lemma_nul_index(data, from);
    let found = nul_index(data, from);
    if found < end {
        assert(data[found] != 0);
    }
    if end < found {
        assert(data[end] != 0);
    }
}

/// A text that is read somewhere stands there.
pub proof fn lemma_read_text_stands(data: Seq<u8>, from: int) -> (end: int)
    requires
        c_string(data, from) is Some,
    ensures
        text_stands(data, from, end),
        c_string(data, from) == Some(decode_utf8(data.subrange(from, end))),
{
    lemma_nul_index(data, from);
    nul_index(data, from)
}

/// Whether the import directory of an image is declared at `rva` with `size` bytes inside the data.
pub open spec fn imports_declared(data: Seq<u8>, pe: PeImage, rva: int, size: int) -> bool {
    &&& pe.nt_headers.optional_header.number_of_rva_and_sizes >= 2
    &&& pe.nt_headers.file_header.size_of_optional_header >= 128
    &&& pe.nt_headers@.data_directories[1].virtual_address == rva
    &&& pe.nt_headers@.data_directories[1].size == size
    &&& 0 < rva
    &&& 0 < size
    &&& rva + size <= data.len() <= usize::MAX
}

/// Whether descriptor `i` of a directory at `rva` is there and neither it nor one before it is the
/// null descriptor.
pub open spec fn descriptor_stands(data: Seq<u8>, rva: int, size: int, i: int) -> bool {
    &&& 0 <= i
    &&& 20 * i + 20 <= size
    &&& forall|j: int|
        0 <= j <= i ==> !(#[trigger] le32(data, rva + 20 * j) == 0 && le32(data, rva + 20 * j + 12)
            == 0 && le32(data, rva + 20 * j + 16) == 0)
}

/// The lookup thunks of the descriptor at `at`: those of its first field, else those of its last.
pub open spec fn thunks_of(data: Seq<u8>, at: int) -> int {
    if le32(data, at) != 0 {
        le32(data, at) as int
    } else {
        le32(data, at + 16) as int
    }
}

/// Whether lookup thunk `k` of the descriptor at `at` is there and no thunk up to it is zero or
/// beyond the address range.
pub open spec fn thunk_stands(data: Seq<u8>, at: int, k: int) -> bool {
    &&& 0 <= k
    &&& le32(data, at + 16) != 0
    &&& le32(data, at + 16) + 8 * k <= usize::MAX
    &&& forall|m: int|
        0 <= m <= k ==> {
            let value = #[trigger] le64(data, thunks_of(data, at) + 8 * m);
            &&& thunks_of(data, at) + 8 * m + 8 <= data.len()
            &&& value != 0
            &&& value < 0x8000_0000_0000_0000 ==> value + 2 <= usize::MAX
        }
}

/// Whether `entry` is the import of a library by the thunk with this value at this address slot.
pub open spec fn imports_by_thunk(
    data: Seq<u8>,
    entry: ImportEntryView,
    value: u64,
    slot: int,
) -> bool {
    &&& entry.iat_rva == slot
    &&& if value >= 0x8000_0000_0000_0000 {
        &&& entry.ordinal == Some((value % 0x1_0000) as u16)
        &&& entry.function_name == seq!['#'] + decimal((value % 0x1_0000) as nat)
    } else {
        &&& entry.ordinal is None
        &&& exists|end: int| #[trigger]
            text_stands(data, value + 2, end) && entry.function_name == decode_utf8(
                data.subrange(value + 2, end),
            )
    }
}

/// What was found before stays where it is.
proof fn lemma_descriptor_keeps(
    data: Seq<u8>,
    pe: PeImage,
    d: ImportDescriptor,
    library: Seq<char>,
    index: int,
    found: Seq<ImportEntryView>,
)
    ensures
        ({
            let all = descriptor_entries(data, pe, d, library, index, found);
            &&& found.len() <= all.len()
            &&& forall|n: int| 0 <= n < found.len() ==> #[trigger] all[n] == found[n]
        }),
    decreases data.len() - (crate::imports::parsing::lookup_table(d) + index * 8),
{
    match thunk_step(data, pe, d, library, index) {
        ThunkStep::Stop => {},
        ThunkStep::Skip => {
            lemma_descriptor_keeps(data, pe, d, library, index + 1, found);
        },
        ThunkStep::Entry(entry) => {
            lemma_descriptor_keeps(data, pe, d, library, index + 1, found.push(entry));
            assert forall|n: int| 0 <= n < found.len() implies #[trigger] descriptor_entries(
                data,
                pe,
                d,
                library,
                index,
                found,
            )[n] == found[n] by {
                assert(found.push(entry)[n] == found[n]);
            }
        },
    }
}

/// An entry that a thunk gives, with no stop before it, is listed.
proof fn lemma_descriptor_lists(
    data: Seq<u8>,
    pe: PeImage,
    d: ImportDescriptor,
    library: Seq<char>,
    index: int,
    found: Seq<ImportEntryView>,
    k: int,
) -> (n: int)
    requires
        index <= k,
        forall|m: int| index <= m < k ==> !(#[trigger] thunk_step(data, pe, d, library, m) is Stop),
        thunk_step(data, pe, d, library, k) is Entry,
    ensures
        found.len() <= n < descriptor_entries(data, pe, d, library, index, found).len(),
        ThunkStep::Entry(descriptor_entries(data, pe, d, library, index, found)[n]) == thunk_step(
            data,
            pe,
            d,
            library,
            k,
        ),
    decreases k - index,
{
    match thunk_step(data, pe, d, library, index) {
        ThunkStep::Stop => 0,
        ThunkStep::Skip => lemma_descriptor_lists(data, pe, d, library, index + 1, found, k),
        ThunkStep::Entry(entry) => {
            if index == k {
                lemma_descriptor_keeps(data, pe, d, library, index + 1, found.push(entry));
                assert(found.push(entry)[found.len() as int] == entry);
                found.len() as int
            } else {
                lemma_descriptor_lists(data, pe, d, library, index + 1, found.push(entry), k)
            }
        },
    }
}

/// A listed entry comes from a thunk, with no stop before it.
proof fn lemma_descriptor_place(
    data: Seq<u8>,
    pe: PeImage,
    d: ImportDescriptor,
    library: Seq<char>,
    index: int,
    found: Seq<ImportEntryView>,
    n: int,
) -> (k: int)
    requires
        found.len() <= n < descriptor_entries(data, pe, d, library, index, found).len(),
    ensures
        index <= k,
        forall|m: int| index <= m < k ==> !(#[trigger] thunk_step(data, pe, d, library, m) is Stop),
        thunk_step(data, pe, d, library, k) == ThunkStep::Entry(
            descriptor_entries(data, pe, d, library, index, found)[n],
        ),
    decreases data.len() - (crate::imports::parsing::lookup_table(d) + index * 8),
{
    match thunk_step(data, pe, d, library, index) {
        ThunkStep::Stop => index,
        ThunkStep::Skip => lemma_descriptor_place(data, pe, d, library, index + 1, found, n),
        ThunkStep::Entry(entry) => {
            if n == found.len() {
                lemma_descriptor_keeps(data, pe, d, library, index + 1, found.push(entry));
                assert(found.push(entry)[n] == entry);
                index
            } else {
                lemma_descriptor_place(data, pe, d, library, index + 1, found.push(entry), n)
            }
        },
    }
}

/// Two listed entries come from two thunks, in order.
proof fn lemma_descriptor_places(
    data: Seq<u8>,
    pe: PeImage,
    d: ImportDescriptor,
    library: Seq<char>,
    index: int,
    found: Seq<ImportEntryView>,
    n1: int,
    n2: int,
) -> (ks: (int, int))
    requires
        found.len() <= n1 < n2 < descriptor_entries(data, pe, d, library, index, found).len(),
    ensures
        ({
            let all = descriptor_entries(data, pe, d, library, index, found);
            let (k1, k2) = ks;
            &&& index <= k1 < k2
            &&& forall|m: int|
                index <= m < k2 ==> !(#[trigger] thunk_step(data, pe, d, library, m) is Stop)
            &&& thunk_step(data, pe, d, library, k1) == ThunkStep::Entry(all[n1])
            &&& thunk_step(data, pe, d, library, k2) == ThunkStep::Entry(all[n2])
        }),
    decreases data.len() - (crate::imports::parsing::lookup_table(d) + index * 8),
{
    match thunk_step(data, pe, d, library, index) {
        ThunkStep::Stop => (index, index),
        ThunkStep::Skip => lemma_descriptor_places(
            data,
            pe,
            d,
            library,
            index + 1,
            found,
            n1,
            n2,
        ),
        ThunkStep::Entry(entry) => {
            let more = found.push(entry);
            if n1 == found.len() {
                lemma_descriptor_keeps(data, pe, d, library, index + 1, more);
                assert(more[n1] == entry);
                let k2 = lemma_descriptor_place(data, pe, d, library, index + 1, more, n2);
                (index, k2)
            } else {
                lemma_descriptor_places(data, pe, d, library, index + 1, more, n1, n2)
            }
        },
    }
}

/// The descriptor of a table at `rva`, read from the bytes.
pub open spec fn descriptor_bytes(data: Seq<u8>, at: int) -> ImportDescriptor {
    ImportDescriptor {
        original_first_thunk: le32(data, at),
        name: le32(data, at + 12),
        first_thunk: le32(data, at + 16),
    }
}

/// The imports after descriptor `index`.
spec fn after_descriptor(
    data: Seq<u8>,
    pe: PeImage,
    table: ImportDescriptorTable,
    index: int,
    found: Seq<ImportEntryView>,
) -> Seq<ImportEntryView> {
    let d = descriptor_bytes(data, table.start + 20 * index);
    match c_string(data, d.name as int) {
        Some(library) => if d.first_thunk != 0 {
            descriptor_entries(data, pe, d, library, 0, found)
        } else {
            found
        },
        None => found,
    }
}

/// One step over the descriptors.
proof fn lemma_table_step(
    data: Seq<u8>,
    pe: PeImage,
    table: ImportDescriptorTable,
    index: int,
    found: Seq<ImportEntryView>,
)
    ensures
        ({
            let d = descriptor_bytes(data, table.start + 20 * index);
            let ended = index >= table.count || (d.original_first_thunk == 0 && d.name == 0
                && d.first_thunk == 0);
            table_entries(data, pe, table, index, found) == (if ended {
                found
            } else {
                table_entries(
                    data,
                    pe,
                    table,
                    index + 1,
                    after_descriptor(data, pe, table, index, found),
                )
            })
        }),
{
    assert(20 * index == index * 20);
}

/// What was found before stays where it is.
proof fn lemma_table_keeps(
    data: Seq<u8>,
    pe: PeImage,
    table: ImportDescriptorTable,
    index: int,
    found: Seq<ImportEntryView>,
)
    ensures
        ({
            let all = table_entries(data, pe, table, index, found);
            &&& found.len() <= all.len()
            &&& forall|n: int| 0 <= n < found.len() ==> #[trigger] all[n] == found[n]
        }),
    decreases table.count - index,
{
    lemma_table_step(data, pe, table, index, found);
    let d = descriptor_bytes(data, table.start + 20 * index);
    let more = after_descriptor(data, pe, table, index, found);
    if index < table.count {
        lemma_table_keeps(data, pe, table, index + 1, more);
        match c_string(data, d.name as int) {
            Some(library) => {
                lemma_descriptor_keeps(data, pe, d, library, 0, found);
            },
            None => {},
        }
        let all = table_entries(data, pe, table, index, found);
        assert forall|n: int| 0 <= n < found.len() implies #[trigger] all[n] == found[n] by {
            assert(more[n] == found[n]);
        }
    }
}

/// An entry of a descriptor that the table reaches is listed.
proof fn lemma_table_lists(
    data: Seq<u8>,
    pe: PeImage,
    table: ImportDescriptorTable,
    index: int,
    found: Seq<ImportEntryView>,
    i: int,
    library: Seq<char>,
    k: int,
) -> (n: int)
    requires
        0 <= index <= i < table.count,
        forall|j: int|
            0 <= j <= i ==> !(#[trigger] le32(data, table.start + 20 * j) == 0 && le32(
                data,
                table.start + 20 * j + 12,
            ) == 0 && le32(data, table.start + 20 * j + 16) == 0),
        ({
            let d = descriptor_bytes(data, table.start + 20 * i);
            &&& d.first_thunk != 0
            &&& c_string(data, d.name as int) == Some(library)
            &&& 0 <= k
            &&& forall|m: int|
                0 <= m < k ==> !(#[trigger] thunk_step(data, pe, d, library, m) is Stop)
            &&& thunk_step(data, pe, d, library, k) is Entry
        }),
    ensures
        0 <= n < table_entries(data, pe, table, index, found).len(),
        ThunkStep::Entry(table_entries(data, pe, table, index, found)[n]) == thunk_step(
            data,
            pe,
            descriptor_bytes(data, table.start + 20 * i),
            library,
            k,
        ),
    decreases i - index,
{
    lemma_table_step(data, pe, table, index, found);
    assert(!(le32(data, table.start + 20 * index) == 0 && le32(
        data,
        table.start + 20 * index + 12,
    ) == 0 && le32(data, table.start + 20 * index + 16) == 0));
    let more = after_descriptor(data, pe, table, index, found);
    if index == i {
        let d = descriptor_bytes(data, table.start + 20 * i);
        let n = lemma_descriptor_lists(data, pe, d, library, 0, found, k);
        lemma_table_keeps(data, pe, table, index + 1, more);
        assert(table_entries(data, pe, table, index + 1, more)[n] == more[n]);
        n
    } else {
        lemma_table_lists(data, pe, table, index + 1, more, i, library, k)
    }
}

/// The table of a declared directory.
proof fn lemma_declared_table(data: Seq<u8>, pe: PeImage, rva: int, size: int) -> (table:
    ImportDescriptorTable)
    requires
        imports_declared(data, pe, rva, size),
    ensures
        table.start == rva,
        table.count == size / 20,
        import_entries(data, pe) == (if size >= 20 {
            table_entries(data, pe, table, 0, Seq::empty())
        } else {
            Seq::empty()
        }),
{
    ImportDescriptorTable { start: rva as usize, count: (size / 20) as usize }
}

/// What a thunk that stands gives.
proof fn lemma_thunk_gives(
    data: Seq<u8>,
    pe: PeImage,
    at: int,
    library: Seq<char>,
    k: int,
)
    requires
        thunk_stands(data, at, k),
        data.len() <= usize::MAX,
    ensures
        forall|m: int|
            0 <= m <= k ==> !(#[trigger] thunk_step(
                data,
                pe,
                descriptor_bytes(data, at),
                library,
                m,
            ) is Stop),
{
    let d = descriptor_bytes(data, at);
    assert forall|m: int| 0 <= m <= k implies !(#[trigger] thunk_step(
        data,
        pe,
        d,
        library,
        m,
    ) is Stop) by {
        let value = le64(data, thunks_of(data, at) + 8 * m);
        assert(value != 0);
        assert(m * 8 == 8 * m);
        assert(le32(data, at + 16) + 8 * m <= usize::MAX);
    }
}

/// Every import is listed: each lookup thunk before the first zero thunk, of each descriptor before
/// the null descriptor, that is an ordinal or leads to a readable name, is an entry under the name
/// of its library with the address slot of the same place.
pub proof fn law_every_import_is_listed(
    data: Seq<u8>,
    pe: PeImage,
    rva: int,
    size: int,
    i: int,
    name_end: int,
    k: int,
) -> (n: int)
    requires
        imports_declared(data, pe, rva, size),
        descriptor_stands(data, rva, size, i),
        text_stands(data, le32(data, rva + 20 * i + 12) as int, name_end),
        thunk_stands(data, rva + 20 * i, k),
        ({
            let value = le64(data, thunks_of(data, rva + 20 * i) + 8 * k);
            value >= 0x8000_0000_0000_0000 || exists|end: int| #[trigger] text_stands(data, value + 2, end)
        }),
    ensures
        0 <= n < import_entries(data, pe).len(),
        import_entries(data, pe)[n].library_name == decode_utf8(
            data.subrange(le32(data, rva + 20 * i + 12) as int, name_end),
        ),
        imports_by_thunk(
            data,
            import_entries(data, pe)[n],
            le64(data, thunks_of(data, rva + 20 * i) + 8 * k),
            le32(data, rva + 20 * i + 16) + 8 * k,
        ),
{
    let at = rva + 20 * i;
    let d = descriptor_bytes(data, at);
    let table = lemma_declared_table(data, pe, rva, size);
    lemma_text_stands(data, d.name as int, name_end);
    let library = decode_utf8(data.subrange(d.name as int, name_end));
    lemma_thunk_gives(data, pe, at, library, k);
    let value = le64(data, thunks_of(data, at) + 8 * k);
    assert(k * 8 == 8 * k);
    assert(!(thunk_step(data, pe, d, library, k) is Stop));
    if value < 0x8000_0000_0000_0000 {
        let end = choose|end: int| #[trigger] text_stands(data, value + 2, end);
        lemma_text_stands(data, value + 2, end);
    }
    lemma_table_lists(data, pe, table, 0, Seq::empty(), i, library, k)
}

/// A listed entry comes from a thunk of a descriptor that the table reaches.
proof fn lemma_table_place(
    data: Seq<u8>,
    pe: PeImage,
    table: ImportDescriptorTable,
    index: int,
    found: Seq<ImportEntryView>,
    n: int,
) -> (place: (int, int))
    requires
        0 <= index,
        found.len() <= n < table_entries(data, pe, table, index, found).len(),
    ensures
        entry_placed(
            data,
            pe,
            table,
            index,
            place,
            table_entries(data, pe, table, index, found)[n],
        ),
    decreases table.count - index,
{
    lemma_table_step(data, pe, table, index, found);
    let more = after_descriptor(data, pe, table, index, found);
    let d = descriptor_bytes(data, table.start + 20 * index);
    if n < more.len() {
        lemma_table_keeps(data, pe, table, index + 1, more);
        assert(table_entries(data, pe, table, index + 1, more)[n] == more[n]);
        let library = c_string(data, d.name as int)->0;
        let k = lemma_descriptor_place(data, pe, d, library, 0, found, n);
        (index, k)
    } else {
        lemma_table_place(data, pe, table, index + 1, more, n)
    }
}

/// Whether `entry` comes from thunk `place.1` of descriptor `place.0`, which the table reaches from
/// descriptor `index` on.
spec fn entry_placed(
    data: Seq<u8>,
    pe: PeImage,
    table: ImportDescriptorTable,
    index: int,
    place: (int, int),
    entry: ImportEntryView,
) -> bool {
    let (i, k) = place;
    let d = descriptor_bytes(data, table.start + 20 * i);
    &&& index <= i < table.count
    &&& 0 <= k
    &&& forall|j: int|
        index <= j <= i ==> !(#[trigger] le32(data, table.start + 20 * j) == 0 && le32(
            data,
            table.start + 20 * j + 12,
        ) == 0 && le32(data, table.start + 20 * j + 16) == 0)
    &&& d.first_thunk != 0
    &&& c_string(data, d.name as int) is Some
    &&& forall|m: int|
        0 <= m < k ==> !(#[trigger] thunk_step(
            data,
            pe,
            d,
            c_string(data, d.name as int)->0,
            m,
        ) is Stop)
    &&& thunk_step(data, pe, d, c_string(data, d.name as int)->0, k) == ThunkStep::Entry(entry)
}

/// Two listed entries come from two places, in order.
proof fn lemma_table_places(
    data: Seq<u8>,
    pe: PeImage,
    table: ImportDescriptorTable,
    index: int,
    found: Seq<ImportEntryView>,
    n1: int,
    n2: int,
) -> (places: ((int, int), (int, int)))
    requires
        0 <= index,
        found.len() <= n1 < n2 < table_entries(data, pe, table, index, found).len(),
    ensures
        ({
            let all = table_entries(data, pe, table, index, found);
            let (first, second) = places;
            &&& entry_placed(data, pe, table, index, first, all[n1])
            &&& entry_placed(data, pe, table, index, second, all[n2])
            &&& first.0 < second.0 || (first.0 == second.0 && first.1 < second.1)
        }),
    decreases table.count - index,
{
    lemma_table_step(data, pe, table, index, found);
    let more = after_descriptor(data, pe, table, index, found);
    let d = descriptor_bytes(data, table.start + 20 * index);
    let library = c_string(data, d.name as int)->0;
    if n1 < more.len() {
        lemma_table_keeps(data, pe, table, index + 1, more);
        assert(table_entries(data, pe, table, index + 1, more)[n1] == more[n1]);
        if n2 < more.len() {
            assert(table_entries(data, pe, table, index + 1, more)[n2] == more[n2]);
            let (k1, k2) = lemma_descriptor_places(data, pe, d, library, 0, found, n1, n2);
            ((index, k1), (index, k2))
        } else {
            let k = lemma_descriptor_place(data, pe, d, library, 0, found, n1);
            let second = lemma_table_place(data, pe, table, index + 1, more, n2);
            ((index, k), second)
        }
    } else {
        lemma_table_places(data, pe, table, index + 1, more, n1, n2)
    }
}

/// What the place of an entry says of the bytes.
proof fn lemma_placed_bytes(
    data: Seq<u8>,
    pe: PeImage,
    table: ImportDescriptorTable,
    place: (int, int),
    entry: ImportEntryView,
)
    requires
        data.len() <= usize::MAX,
        entry_placed(data, pe, table, 0, place, entry),
    ensures
        ({
            let (i, k) = place;
            let at = table.start + 20 * i;
            let value = le64(data, thunks_of(data, at) + 8 * k);
            &&& exists|end: int| #[trigger]
                text_stands(data, le32(data, at + 12) as int, end) && entry.library_name
                    == decode_utf8(data.subrange(le32(data, at + 12) as int, end))
            &&& thunks_of(data, at) + 8 * k + 8 <= data.len()
            &&& forall|m: int|
                0 <= m <= k ==> #[trigger] le64(data, thunks_of(data, at) + 8 * m) != 0
            &&& imports_by_thunk(data, entry, value, le32(data, at + 16) + 8 * k)
            &&& entry.file_offset == pe.file_offset(le32(data, at + 16) + 8 * k)
        }),
{
    let (i, k) = place;
    let at = table.start + 20 * i;
    let d = descriptor_bytes(data, at);
    let library = c_string(data, d.name as int)->0;
    let end = lemma_read_text_stands(data, d.name as int);
    assert(text_stands(data, le32(data, at + 12) as int, end));
    assert(k * 8 == 8 * k);
    let value = le64(data, thunks_of(data, at) + 8 * k);
    assert forall|m: int| 0 <= m <= k implies #[trigger] le64(data, thunks_of(data, at) + 8 * m)
        != 0 by {
        assert(m * 8 == 8 * m);
        assert(!(thunk_step(data, pe, d, library, m) is Stop));
    }
    if value < 0x8000_0000_0000_0000 {
        let name_end = lemma_read_text_stands(data, value + 2);
        assert(text_stands(data, value + 2, name_end));
    }
}

/// Nothing else is listed, and nothing twice: two entries come from two thunks, the earlier entry
/// from the earlier thunk, and each of them is what its thunk and its descriptor say.
pub proof fn law_listed_imports_are_in_the_directory(
    data: Seq<u8>,
    pe: PeImage,
    rva: int,
    size: int,
    n1: int,
    n2: int,
) -> (places: ((int, int), (int, int)))
    requires
        imports_declared(data, pe, rva, size),
        0 <= n1 < n2 < import_entries(data, pe).len(),
    ensures
        ({
            let (first, second) = places;
            &&& import_stands(data, pe, rva, size, first, import_entries(data, pe)[n1])
            &&& import_stands(data, pe, rva, size, second, import_entries(data, pe)[n2])
            &&& first.0 < second.0 || (first.0 == second.0 && first.1 < second.1)
        }),
{
    let table = lemma_declared_table(data, pe, rva, size);
    let places = lemma_table_places(data, pe, table, 0, Seq::empty(), n1, n2);
    lemma_placed_bytes(data, pe, table, places.0, import_entries(data, pe)[n1]);
    lemma_placed_bytes(data, pe, table, places.1, import_entries(data, pe)[n2]);
    places
}

/// Each listed entry is what its thunk and its descriptor say.
pub proof fn law_listed_import_is_in_the_directory(
    data: Seq<u8>,
    pe: PeImage,
    rva: int,
    size: int,
    n: int,
) -> (place: (int, int))
    requires
        imports_declared(data, pe, rva, size),
        0 <= n < import_entries(data, pe).len(),
    ensures
        import_stands(data, pe, rva, size, place, import_entries(data, pe)[n]),
{
    let table = lemma_declared_table(data, pe, rva, size);
    let place = lemma_table_place(data, pe, table, 0, Seq::empty(), n);
    lemma_placed_bytes(data, pe, table, place, import_entries(data, pe)[n]);
    place
}

/// Whether `entry` is the import that thunk `place.1` of descriptor `place.0` of the directory at
/// `rva` stands for.
pub open spec fn import_stands(
    data: Seq<u8>,
    pe: PeImage,
    rva: int,
    size: int,
    place: (int, int),
    entry: ImportEntryView,
) -> bool {
    let (i, k) = place;
    let at = rva + 20 * i;
    &&& descriptor_stands(data, rva, size, i)
    &&& exists|end: int| #[trigger]
        text_stands(data, le32(data, at + 12) as int, end) && entry.library_name == decode_utf8(
            data.subrange(le32(data, at + 12) as int, end),
        )
    &&& 0 <= k
    &&& thunks_of(data, at) + 8 * k + 8 <= data.len()
    &&& forall|m: int| 0 <= m <= k ==> #[trigger] le64(data, thunks_of(data, at) + 8 * m) != 0
    &&& imports_by_thunk(
        data,
        entry,
        le64(data, thunks_of(data, at) + 8 * k),
        le32(data, at + 16) + 8 * k,
    )
    &&& entry.file_offset == pe.file_offset(le32(data, at + 16) + 8 * k)
}

} // verus!
