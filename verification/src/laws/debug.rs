//! Program-database records, stated over the bytes of the debug directory.

use vstd::prelude::*;

use crate::bytes::{le16, le32, lemma_nul_index, nul_index};
use crate::debuginfo::pdb::{
    codeview_record, debug_directory, debug_entry_at, debug_entry_step, deciding_entry, path_at,
    pdb_outcome, record_format, PdbCodeViewFormat, PdbRecord, NB10_SIGNATURE, RSDS_SIGNATURE,
};
use crate::pe::snapshot::snapshot_range_available;
use crate::pe::types::{PeImage, UnavailablePeRange, ValidatedPeSnapshot};
use crate::text::lossy_text;

verus! {

/// Whether a range can be read: without a snapshot always, else when the snapshot holds it.
pub open spec fn can_read(snapshot: Option<ValidatedPeSnapshot>, rva: int, size: int) -> bool {
    match snapshot {
        Some(snapshot) => snapshot_range_available(snapshot, rva, size),
        None => true,
    }
}

/// Where the path stands in a record.
pub open spec fn path_offset(format: PdbCodeViewFormat) -> int {
    match format {
        PdbCodeViewFormat::Rsds => 24,
        PdbCodeViewFormat::Nb10 => 16,
    }
}

/// Whether the `size` bytes at `rva` begin with the letters of a format and hold a path that ends
/// at the zero byte at `end`.
pub open spec fn names_pdb(
    data: Seq<u8>,
    rva: int,
    size: int,
    format: PdbCodeViewFormat,
    end: int,
) -> bool {
    let from = rva + path_offset(format);
    &&& 0 <= rva
    &&& rva + size <= data.len()
    &&& match format {
        PdbCodeViewFormat::Rsds => data[rva] == 0x52 && data[rva + 1] == 0x53 && data[rva + 2]
            == 0x44 && data[rva + 3] == 0x53,
        PdbCodeViewFormat::Nb10 => data[rva] == 0x4E && data[rva + 1] == 0x42 && data[rva + 2]
            == 0x31 && data[rva + 3] == 0x30,
    }
    &&& from <= end < rva + size
    &&& data[end] == 0
    &&& forall|x: int| from <= x < end ==> #[trigger] data[x] != 0
    &&& lossy_text(data.subrange(from, end)).len() > 0
}

/// Whether the image declares a debug directory at `rva` with `size` bytes.
pub open spec fn debug_declared(pe: PeImage, rva: int, size: int) -> bool {
    &&& pe.nt_headers.optional_header.number_of_rva_and_sizes >= 7
    &&& pe.nt_headers.file_header.size_of_optional_header >= 168
    &&& pe.nt_headers@.data_directories[6].virtual_address == rva
    &&& pe.nt_headers@.data_directories[6].size == size
    &&& rva != 0
    &&& size != 0
}

/// Whether the directory entry at `at` is a CodeView entry of `size` bytes at `rva`.
pub open spec fn codeview_entry(data: Seq<u8>, at: int, rva: int, size: int) -> bool {
    &&& le32(data, at + 12) == 2
    &&& le32(data, at + 16) == size
    &&& le32(data, at + 20) == rva
    &&& size != 0
    &&& rva != 0
}

/// Whether the directory entry at `at` has nothing to give: it is no CodeView entry, it is empty,
/// or its bytes can be read and name no program database.
pub open spec fn gives_nothing(
    data: Seq<u8>,
    snapshot: Option<ValidatedPeSnapshot>,
    at: int,
) -> bool {
    let rva = le32(data, at + 20) as int;
    let size = le32(data, at + 16) as int;
    ||| le32(data, at + 12) != 2
    ||| size == 0
    ||| rva == 0
    ||| {
        &&& can_read(snapshot, rva, size)
        &&& forall|format: PdbCodeViewFormat, end: int| !(#[trigger]
            names_pdb(data, rva, size, format, end))
    }
}

/// Whether `record` holds what the entry at `at`, with its record of `size` bytes at `rva` and
/// the path up to `end`, says.
pub open spec fn record_says(
    data: Seq<u8>,
    pe: PeImage,
    at: int,
    rva: int,
    size: int,
    end: int,
    record: PdbRecord,
) -> bool {
    &&& record.full_path@ == lossy_text(
        data.subrange(rva + path_offset(record.format), end),
    )
    &&& record.debug_directory_rva == at
    &&& record.debug_directory_file_offset == pe.file_offset(at)
    &&& record.codeview_rva == rva
    &&& record.codeview_size == size
    &&& pe.file_offset(rva) is Some ==> record.codeview_file_offset == pe.file_offset(rva)
    &&& pe.file_offset(rva) is None ==> match record.codeview_file_offset {
        Some(offset) => offset == le32(data, at + 24) && offset != 0,
        None => le32(data, at + 24) == 0,
    }
    &&& record.format == PdbCodeViewFormat::Rsds ==> {
        &&& record.signature is None
        &&& record.age == le32(data, rva + 20)
        &&& record.guid is Some
        &&& record.guid->0.data1 == le32(data, rva + 4)
        &&& record.guid->0.data2 == le16(data, rva + 8)
        &&& record.guid->0.data3 == le16(data, rva + 10)
        &&& forall|x: int| 0 <= x < 8 ==> #[trigger] record.guid->0.data4@[x] == data[rva + 12 + x]
    }
    &&& record.format == PdbCodeViewFormat::Nb10 ==> {
        &&& record.guid is None
        &&& record.signature == Some(le32(data, rva + 8))
        &&& record.age == le32(data, rva + 12)
    }
}

/// The path of a record, seen from the record and from the data.
proof fn lemma_path(data: Seq<u8>, rva: int, size: int, offset: int, end: int)
    requires
        0 <= rva,
        rva + size <= data.len(),
        0 <= offset,
        rva + offset <= end < rva + size,
        data[end] == 0,
        forall|x: int| rva + offset <= x < end ==> #[trigger] data[x] != 0,
    ensures
        ({
            let record = data.subrange(rva, rva + size);
            let text = lossy_text(data.subrange(rva + offset, end));
            path_at(record, offset) == (if text.len() > 0 {
                Some(text)
            } else {
                None
            })
        }),
{
    let record = data.subrange(rva, rva + size);
    lemma_nul_index(record, offset);
    let found = nul_index(record, offset);
    if found < end - rva {
        assert(record[found] == data[rva + found]);
    }
    if end - rva < found {
        assert(record[end - rva] == data[end]);
    }
    assert(record.subrange(offset, found) =~= data.subrange(rva + offset, end));
}

/// A path that is read from a record ends at a zero byte of the data.
proof fn lemma_read_path(data: Seq<u8>, rva: int, size: int, offset: int) -> (end: int)
    requires
        0 <= rva,
        rva + size <= data.len(),
        0 <= size,
        0 <= offset,
        path_at(data.subrange(rva, rva + size), offset) is Some,
    ensures
        rva + offset <= end < rva + size,
        data[end] == 0,
        forall|x: int| rva + offset <= x < end ==> #[trigger] data[x] != 0,
        path_at(data.subrange(rva, rva + size), offset) == Some(
            lossy_text(data.subrange(rva + offset, end)),
        ),
        lossy_text(data.subrange(rva + offset, end)).len() > 0,
{
    let record = data.subrange(rva, rva + size);
    lemma_nul_index(record, offset);
    let found = nul_index(record, offset);
    let end = rva + found;
    assert(record[found] == data[end]);
    assert forall|x: int| rva + offset <= x < end implies #[trigger] data[x] != 0 by {
        assert(record[x - rva] == data[x]);
    }
    assert(record.subrange(offset, found) =~= data.subrange(rva + offset, end));
    end
}

/// A record that names a program database has the format.
proof fn lemma_named_format(
    data: Seq<u8>,
    rva: int,
    size: int,
    format: PdbCodeViewFormat,
    end: int,
)
    requires
        names_pdb(data, rva, size, format, end),
    ensures
        record_format(data.subrange(rva, rva + size)) == Some(format),
        path_at(data.subrange(rva, rva + size), path_offset(format)) == Some(
            lossy_text(data.subrange(rva + path_offset(format), end)),
        ),
{
    let record = data.subrange(rva, rva + size);
    let first = record.subrange(0, 4);
    lemma_path(data, rva, size, path_offset(format), end);
    assert(record[0] == data[rva] && record[1] == data[rva + 1] && record[2] == data[rva + 2]
        && record[3] == data[rva + 3]);
    match format {
        PdbCodeViewFormat::Rsds => {
            assert(first =~= RSDS_SIGNATURE@);
        },
        PdbCodeViewFormat::Nb10 => {
            assert(first =~= NB10_SIGNATURE@);
            assert(first[0] != RSDS_SIGNATURE@[0]);
        },
    }
}

/// A record with a format names a program database.
proof fn lemma_format_names(
    data: Seq<u8>,
    rva: int,
    size: int,
    format: PdbCodeViewFormat,
) -> (end: int)
    requires
        0 <= rva,
        0 <= size,
        rva + size <= data.len(),
        record_format(data.subrange(rva, rva + size)) == Some(format),
    ensures
        names_pdb(data, rva, size, format, end),
        path_at(data.subrange(rva, rva + size), path_offset(format)) == Some(
            lossy_text(data.subrange(rva + path_offset(format), end)),
        ),
{
    let record = data.subrange(rva, rva + size);
    let first = record.subrange(0, 4);
    let end = lemma_read_path(data, rva, size, path_offset(format));
    assert(record[0] == data[rva] && record[1] == data[rva + 1] && record[2] == data[rva + 2]
        && record[3] == data[rva + 3]);
    assert(first[0] == record[0] && first[1] == record[1] && first[2] == record[2] && first[3]
        == record[3]);
    match format {
        PdbCodeViewFormat::Rsds => {
            assert(first == RSDS_SIGNATURE@);
        },
        PdbCodeViewFormat::Nb10 => {
            assert(first == NB10_SIGNATURE@);
        },
    }
    end
}

/// An entry that has nothing to give is passed over.
proof fn lemma_nothing_is_skipped(
    data: Seq<u8>,
    snapshot: Option<ValidatedPeSnapshot>,
    at: int,
)
    requires
        gives_nothing(data, snapshot, at),
    ensures
        debug_entry_step(data, snapshot, at) is Skip,
{
    let entry = debug_entry_at(data, at);
    let rva = entry.address_of_raw_data as int;
    let size = entry.size_of_data as int;
    if rva + size <= data.len() {
        match record_format(codeview_record(data, entry)) {
            Some(format) => {
                let end = lemma_format_names(data, rva, size, format);
                assert(names_pdb(data, rva, size, format, end));
            },
            None => {},
        }
    }
}

/// An entry that is passed over has nothing to give.
proof fn lemma_skipped_gives_nothing(
    data: Seq<u8>,
    snapshot: Option<ValidatedPeSnapshot>,
    at: int,
)
    requires
        debug_entry_step(data, snapshot, at) is Skip,
    ensures
        gives_nothing(data, snapshot, at),
{
    let rva = le32(data, at + 20) as int;
    let size = le32(data, at + 16) as int;
    assert forall|format: PdbCodeViewFormat, end: int|
        le32(data, at + 12) == 2 && size != 0 && rva != 0 implies !(#[trigger] names_pdb(
        data,
        rva,
        size,
        format,
        end,
    )) by {
        if names_pdb(data, rva, size, format, end) {
            lemma_named_format(data, rva, size, format, end);
        }
    }
}

/// The entry that decides is the first one that is not passed over.
proof fn lemma_decides(
    data: Seq<u8>,
    snapshot: Option<ValidatedPeSnapshot>,
    start: int,
    count: int,
    index: int,
    i: int,
)
    requires
        0 <= index <= i < count,
        forall|j: int| index <= j < i ==> #[trigger] gives_nothing(data, snapshot, start + 28 * j),
        !(debug_entry_step(data, snapshot, start + 28 * i) is Skip),
    ensures
        deciding_entry(data, snapshot, start, count, index) == Some(start + 28 * i),
    decreases i - index,
{
    assert(index * 28 == 28 * index);
    if index < i {
        assert(gives_nothing(data, snapshot, start + 28 * index));
        lemma_nothing_is_skipped(data, snapshot, start + 28 * index);
        lemma_decides(data, snapshot, start, count, index + 1, i);
    }
}

/// The entry that decides, by its place.
proof fn lemma_decided(
    data: Seq<u8>,
    snapshot: Option<ValidatedPeSnapshot>,
    start: int,
    count: int,
    index: int,
) -> (i: int)
    requires
        deciding_entry(data, snapshot, start, count, index) is Some,
    ensures
        index <= i < count,
        deciding_entry(data, snapshot, start, count, index) == Some(start + 28 * i),
        !(debug_entry_step(data, snapshot, start + 28 * i) is Skip),
        forall|j: int| index <= j < i ==> #[trigger] gives_nothing(data, snapshot, start + 28 * j),
    decreases count - index,
{
    assert(index * 28 == 28 * index);
    if debug_entry_step(data, snapshot, start + 28 * index) is Skip {
        lemma_skipped_gives_nothing(data, snapshot, start + 28 * index);
        lemma_decided(data, snapshot, start, count, index + 1)
    } else {
        index
    }
}

/// What a record that was read holds.
proof fn lemma_record_says(
    data: Seq<u8>,
    pe: PeImage,
    at: int,
    rva: int,
    size: int,
    format: PdbCodeViewFormat,
    end: int,
    record: PdbRecord,
)
    requires
        codeview_entry(data, at, rva, size),
        names_pdb(data, rva, size, format, end),
        record.read_from(data, pe, at),
    ensures
        record.format == format,
        record_says(data, pe, at, rva, size, end, record),
{
    lemma_named_format(data, rva, size, format, end);
    let bytes = data.subrange(rva, rva + size);
    assert(bytes == codeview_record(data, debug_entry_at(data, at)));
    assert forall|x: int| 0 <= x < 24 && x < size implies #[trigger] bytes[x] == data[rva + x] by {}
    match format {
        PdbCodeViewFormat::Rsds => {
            assert(bytes.len() >= 24);
            assert(le32(bytes, 20) == le32(data, rva + 20));
            assert(le32(bytes, 4) == le32(data, rva + 4));
            assert(le16(bytes, 8) == le16(data, rva + 8));
            assert(le16(bytes, 10) == le16(data, rva + 10));
            assert forall|x: int| 0 <= x < 8 implies #[trigger] record.guid->0.data4@[x] == data[rva
                + 12 + x] by {
                assert(record.guid->0.data4@ == bytes.subrange(12, 20));
                assert(bytes.subrange(12, 20)[x] == bytes[12 + x]);
            }
        },
        PdbCodeViewFormat::Nb10 => {
            assert(bytes.len() >= 16);
            assert(le32(bytes, 8) == le32(data, rva + 8));
            assert(le32(bytes, 12) == le32(data, rva + 12));
        },
    }
}

/// The program database is found: the record of the first entry of the debug directory that has
/// something to give is returned, wherever in the directory the entry stands.
pub proof fn law_named_pdb_is_found(
    data: Seq<u8>,
    pe: PeImage,
    snapshot: Option<ValidatedPeSnapshot>,
    r: Result<Option<PdbRecord>, UnavailablePeRange>,
    directory: (int, int),
    i: int,
    codeview: (int, int),
    format: PdbCodeViewFormat,
    end: int,
)
    requires
        pdb_outcome(data, pe, snapshot, r),
        debug_declared(pe, directory.0, directory.1),
        can_read(snapshot, directory.0, directory.1),
        directory.0 + directory.1 <= data.len(),
        0 <= i,
        28 * i + 28 <= directory.1,
        forall|j: int|
            0 <= j < i ==> #[trigger] gives_nothing(data, snapshot, directory.0 + 28 * j),
        codeview_entry(data, directory.0 + 28 * i, codeview.0, codeview.1),
        can_read(snapshot, codeview.0, codeview.1),
        names_pdb(data, codeview.0, codeview.1, format, end),
    ensures
        r is Ok,
        r->Ok_0 is Some,
        r->Ok_0->0.format == format,
        record_says(
            data,
            pe,
            directory.0 + 28 * i,
            codeview.0,
            codeview.1,
            end,
            r->Ok_0->0,
        ),
{
    let (start, length) = directory;
    let (rva, size) = codeview;
    let at = start + 28 * i;
    assert(debug_directory(data, pe, snapshot) == Ok::<Option<(int, int)>, UnavailablePeRange>(
        Some((start, length / 28)),
    ));
    lemma_named_format(data, rva, size, format, end);
    assert(debug_entry_step(data, snapshot, at) is Found);
    lemma_decides(data, snapshot, start, length / 28, 0, i);
    lemma_record_says(data, pe, at, rva, size, format, end, r->Ok_0->0);
}

/// A record that is returned stands in the debug directory, and no entry before it has anything to
/// give.
pub proof fn law_found_pdb_is_named(
    data: Seq<u8>,
    pe: PeImage,
    snapshot: Option<ValidatedPeSnapshot>,
    record: PdbRecord,
) -> (place: (int, int))
    requires
        pdb_outcome(data, pe, snapshot, Ok(Some(record))),
    ensures
        ({
            let start = pe.nt_headers@.data_directories[6].virtual_address as int;
            let length = pe.nt_headers@.data_directories[6].size as int;
            let (i, end) = place;
            let at = start + 28 * i;
            let rva = le32(data, at + 20) as int;
            let size = le32(data, at + 16) as int;
            &&& debug_declared(pe, start, length)
            &&& can_read(snapshot, start, length)
            &&& start + length <= data.len()
            &&& 0 <= i
            &&& 28 * i + 28 <= length
            &&& forall|j: int|
                0 <= j < i ==> #[trigger] gives_nothing(data, snapshot, start + 28 * j)
            &&& codeview_entry(data, at, rva, size)
            &&& can_read(snapshot, rva, size)
            &&& names_pdb(data, rva, size, record.format, end)
            &&& record_says(data, pe, at, rva, size, end, record)
        }),
{
    let start = pe.nt_headers@.data_directories[6].virtual_address as int;
    let length = pe.nt_headers@.data_directories[6].size as int;
    let i = lemma_decided(data, snapshot, start, length / 28, 0);
    let at = start + 28 * i;
    let rva = le32(data, at + 20) as int;
    let size = le32(data, at + 16) as int;
    let end = lemma_format_names(data, rva, size, record.format);
    lemma_record_says(data, pe, at, rva, size, record.format, end, record);
    (i, end)
}

/// A missing directory, or a missing record that had to be looked at, is what is reported.
pub proof fn law_missing_debug_data_is_reported(
    data: Seq<u8>,
    pe: PeImage,
    snapshot: Option<ValidatedPeSnapshot>,
    r: Result<Option<PdbRecord>, UnavailablePeRange>,
    directory: (int, int),
    i: int,
    codeview: (int, int),
)
    requires
        pdb_outcome(data, pe, snapshot, r),
        debug_declared(pe, directory.0, directory.1),
    ensures
        !can_read(snapshot, directory.0, directory.1) ==> r is Err && r->Err_0.rva == directory.0
            && r->Err_0.size == directory.1,
        can_read(snapshot, directory.0, directory.1) && directory.0 + directory.1 <= data.len()
            && 0 <= i && 28 * i + 28 <= directory.1 && codeview_entry(
            data,
            directory.0 + 28 * i,
            codeview.0,
            codeview.1,
        ) && !can_read(snapshot, codeview.0, codeview.1) && (forall|j: int|
            0 <= j < i ==> #[trigger] gives_nothing(data, snapshot, directory.0 + 28 * j)) ==> r
            is Err && r->Err_0.rva == codeview.0 && r->Err_0.size == codeview.1,
{
    let (start, length) = directory;
    let at = start + 28 * i;
    if can_read(snapshot, directory.0, directory.1) && directory.0 + directory.1 <= data.len()
        && 0 <= i && 28 * i + 28 <= directory.1 && codeview_entry(data, at, codeview.0, codeview.1)
        && !can_read(snapshot, codeview.0, codeview.1) && (forall|j: int|
        0 <= j < i ==> #[trigger] gives_nothing(data, snapshot, directory.0 + 28 * j)) {
        assert(debug_directory(data, pe, snapshot) == Ok::<Option<(int, int)>, UnavailablePeRange>(
            Some((start, length / 28)),
        ));
        assert(debug_entry_step(data, snapshot, at) is Unavailable);
        lemma_decides(data, snapshot, start, length / 28, 0, i);
    }
}

/// A range that is reported could not be read, and was needed: it is the directory, or the record
/// of an entry that no other one decided before.
pub proof fn law_reported_debug_data_is_missing(
    data: Seq<u8>,
    pe: PeImage,
    snapshot: Option<ValidatedPeSnapshot>,
    range: UnavailablePeRange,
) -> (i: int)
    requires
        pdb_outcome(data, pe, snapshot, Err(range)),
    ensures
        ({
            let start = pe.nt_headers@.data_directories[6].virtual_address as int;
            let length = pe.nt_headers@.data_directories[6].size as int;
            &&& debug_declared(pe, start, length)
            &&& !can_read(snapshot, range.rva as int, range.size as int)
            &&& (range.rva == start && range.size == length) || {
                &&& 0 <= i
                &&& 28 * i + 28 <= length
                &&& codeview_entry(data, start + 28 * i, range.rva as int, range.size as int)
                &&& forall|j: int|
                    0 <= j < i ==> #[trigger] gives_nothing(data, snapshot, start + 28 * j)
            }
        }),
{
    let start = pe.nt_headers@.data_directories[6].virtual_address as int;
    let length = pe.nt_headers@.data_directories[6].size as int;
    match debug_directory(data, pe, snapshot) {
        Ok(Some((start, count))) => {
            let i = lemma_decided(data, snapshot, start, length / 28, 0);
            assert(debug_entry_step(data, snapshot, start + 28 * i) is Unavailable);
            i
        },
        _ => 0,
    }
}

} // verus!
