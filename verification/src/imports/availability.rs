//! Whether the bytes that import parsing needs are all available.

use vstd::prelude::*;

use super::parsing::{
    empty_descriptor, get_import_descriptors, has_thunks, import_table, is_empty_import_descriptor,
    lookup_table, read_descriptor, table_descriptor, thunk_step, ImportDescriptor,
    ImportDescriptorTable, IMAGE_ORDINAL_FLAG64, IMPORT_NAME_OFFSET, THUNK_SIZE,
};
use crate::bytes::{find_nul, get_u64, le64, lemma_nul_index, nul_index};
use crate::pe::layout::executable;
use crate::pe::locate::{data_directory, get_data_directory, get_mapped_section_size, mapped_size};
use crate::pe::types::{PeImage, SectionHeader, UnavailablePeRange, ValidatedPeSnapshot};
use crate::windows::{IMAGE_DIRECTORY_ENTRY_IMPORT, IMAGE_SCN_MEM_EXECUTE};

verus! {

/// The first unavailable range, from `index` on, that overlaps `[rva, rva + size)`. A stored
/// range beyond the address range counts as overlapping.
pub open spec fn overlapping_from(
    ranges: Seq<UnavailablePeRange>,
    index: int,
    rva: int,
    size: int,
) -> Option<UnavailablePeRange>
    decreases ranges.len() - index,
{
    if index >= ranges.len() {
        None
    } else {
        let range = ranges[index];
        if range.rva + range.size > usize::MAX || (rva < range.rva + range.size && range.rva < rva
            + size) {
            Some(range)
        } else {
            overlapping_from(ranges, index + 1, rva, size)
        }
    }
}

/// The first unavailable range that overlaps `[rva, rva + size)`; none when that itself leaves the
/// address range.
pub open spec fn unavailable_overlap(
    ranges: Seq<UnavailablePeRange>,
    rva: int,
    size: int,
) -> Option<UnavailablePeRange> {
    if rva + size > usize::MAX {
        None
    } else {
        overlapping_from(ranges, 0, rva, size)
    }
}

/// Finds the first discarded snapshot range overlapping required image bytes.
pub fn find_snapshot_unavailable_overlap(
    snapshot: &ValidatedPeSnapshot,
    rva: usize,
    size: usize,
) -> (r: Option<UnavailablePeRange>)
    ensures
        r == unavailable_overlap(snapshot.unavailable_ranges@, rva as int, size as int),
{
    let end_rva: usize = match rva.checked_add(size) {
        Some(value) => value,
        None => return None,
    };
    let mut index: usize = 0;
    while index < snapshot.unavailable_ranges.len()
        invariant
            index <= snapshot.unavailable_ranges@.len(),
            end_rva == rva + size,
            unavailable_overlap(snapshot.unavailable_ranges@, rva as int, size as int)
                == overlapping_from(
                snapshot.unavailable_ranges@,
                index as int,
                rva as int,
                size as int,
            ),
        decreases snapshot.unavailable_ranges.len() - index,
    {
        let range = snapshot.unavailable_ranges[index];
        let unavailable_end_rva: usize = match range.rva.checked_add(range.size) {
            Some(value) => value,
            None => return Some(range),
        };
        if rva < unavailable_end_rva && range.rva < end_rva {
            return Some(range);
        }
        index += 1;
    }
    None
}

/// The bytes of the zero-terminated run at `from`, terminator included; one when there is no
/// terminator.
pub open spec fn terminated_size(data: Seq<u8>, from: int) -> int {
    if 0 <= from < data.len() && nul_index(data, from) < data.len() {
        nul_index(data, from) - from + 1
    } else {
        1
    }
}

/// Measures the zero-terminated run at an offset, terminator included.
fn measure_terminated(data: &[u8], from: usize) -> (r: usize)
    ensures
        r == terminated_size(data@, from as int),
        r >= 1,
        r == 1 || from + r <= data@.len(),
{
    match find_nul(data, from) {
        Some(index) => {
            proof {
                lemma_nul_index(data@, from as int);
            }
            assert(data@.len() <= usize::MAX) by {
                assert(data.len() == data@.len());
            }
            index - from + 1
        },
        None => 1,
    }
}

/// What a walk over thunks or descriptors finds: an unavailable range, and whether any import has
/// been seen.
#[derive(Clone, Copy, Debug, Eq, PartialEq, Structural)]
pub struct AvailabilityWalk {
    pub unavailable: Option<UnavailablePeRange>,
    pub has_targets: bool,
}

/// Walks the lookup thunks of a descriptor from `index` on, with the address thunks and names they
/// lead to.
pub open spec fn walk_thunks(
    data: Seq<u8>,
    ranges: Seq<UnavailablePeRange>,
    descriptor: ImportDescriptor,
    index: int,
    has_targets: bool,
) -> AvailabilityWalk
    decreases data.len() - (lookup_table(descriptor) + index * THUNK_SIZE),
{
    let thunk_rva = lookup_table(descriptor) + index * THUNK_SIZE;
    let iat_rva = descriptor.first_thunk + index * THUNK_SIZE;
    let stopped = AvailabilityWalk { unavailable: None, has_targets };
    let seen = AvailabilityWalk { unavailable: None, has_targets: true };
    let thunk_overlap = unavailable_overlap(ranges, thunk_rva, THUNK_SIZE as int);
    let iat_overlap = unavailable_overlap(ranges, iat_rva, THUNK_SIZE as int);
    if thunk_rva > usize::MAX {
        stopped
    } else if thunk_overlap is Some {
        AvailabilityWalk { unavailable: thunk_overlap, has_targets }
    } else if thunk_rva + THUNK_SIZE > data.len() || le64(data, thunk_rva) == 0 {
        stopped
    } else if iat_rva > usize::MAX {
        seen
    } else if iat_overlap is Some {
        AvailabilityWalk { unavailable: iat_overlap, has_targets: true }
    } else {
        let value = le64(data, thunk_rva);
        let name_rva = value + IMPORT_NAME_OFFSET;
        let name_overlap = unavailable_overlap(
            ranges,
            value as int,
            IMPORT_NAME_OFFSET + terminated_size(data, name_rva),
        );
        if value >= IMAGE_ORDINAL_FLAG64 {
            walk_thunks(data, ranges, descriptor, index + 1, true)
        } else if name_rva > usize::MAX {
            seen
        } else if name_overlap is Some {
            AvailabilityWalk { unavailable: name_overlap, has_targets: true }
        } else {
            walk_thunks(data, ranges, descriptor, index + 1, true)
        }
    }
}

/// Walks the descriptors from `index` on.
pub open spec fn walk_descriptors(
    data: Seq<u8>,
    ranges: Seq<UnavailablePeRange>,
    table: ImportDescriptorTable,
    index: int,
    has_targets: bool,
) -> AvailabilityWalk
    decreases table.count - index,
{
    let descriptor = table_descriptor(data, table, index);
    let library_overlap = unavailable_overlap(
        ranges,
        descriptor.name as int,
        terminated_size(data, descriptor.name as int),
    );
    if index >= table.count || empty_descriptor(descriptor) {
        AvailabilityWalk { unavailable: None, has_targets }
    } else if library_overlap is Some {
        AvailabilityWalk { unavailable: library_overlap, has_targets }
    } else if !has_thunks(descriptor) {
        walk_descriptors(data, ranges, table, index + 1, has_targets)
    } else {
        let walked = walk_thunks(data, ranges, descriptor, 0, has_targets);
        if walked.unavailable is Some {
            walked
        } else {
            walk_descriptors(data, ranges, table, index + 1, walked.has_targets)
        }
    }
}

/// The first unavailable range that overlaps an executable section, from `index` on.
pub open spec fn executable_overlap(
    sections: Seq<SectionHeader>,
    ranges: Seq<UnavailablePeRange>,
    index: int,
) -> Option<UnavailablePeRange>
    decreases sections.len() - index,
{
    if index >= sections.len() {
        None
    } else {
        let overlap = unavailable_overlap(
            ranges,
            sections[index].virtual_address as int,
            mapped_size(sections[index]),
        );
        if executable(sections[index]) && overlap is Some {
            overlap
        } else {
            executable_overlap(sections, ranges, index + 1)
        }
    }
}

/// The first unavailable range that import parsing or the search for references needs.
pub open spec fn unavailable_import_range(snapshot: ValidatedPeSnapshot) -> Option<
    UnavailablePeRange,
> {
    let data = snapshot.bytes@;
    let ranges = snapshot.unavailable_ranges@;
    let h = snapshot.pe.nt_headers@;
    match data_directory(h, IMAGE_DIRECTORY_ENTRY_IMPORT as int) {
        None => None,
        Some(directory) => {
            let directory_overlap = unavailable_overlap(
                ranges,
                directory.virtual_address as int,
                directory.size as int,
            );
            if ranges.len() == 0 || directory.virtual_address == 0 || directory.size == 0 {
                None
            } else if directory_overlap is Some {
                directory_overlap
            } else {
                match import_table(h, data.len() as int) {
                    None => None,
                    Some(table) => {
                        let walked = walk_descriptors(data, ranges, table, 0, false);
                        if walked.unavailable is Some {
                            walked.unavailable
                        } else if walked.has_targets {
                            executable_overlap(snapshot.pe.sections@, ranges, 0)
                        } else {
                            None
                        }
                    },
                }
            }
        },
    }
}

/// Walks the thunks of one descriptor.
fn check_thunks(snapshot: &ValidatedPeSnapshot, descriptor: &ImportDescriptor, has_targets: bool) -> (r:
    AvailabilityWalk)
    ensures
        r == walk_thunks(
            snapshot.bytes@,
            snapshot.unavailable_ranges@,
            *descriptor,
            0,
            has_targets,
        ),
{
    let data: &[u8] = snapshot.bytes.as_slice();
    let lookup_table_rva: usize = if descriptor.original_first_thunk != 0 {
        descriptor.original_first_thunk as usize
    } else {
        descriptor.first_thunk as usize
    };
    let ghost expected = walk_thunks(
        snapshot.bytes@,
        snapshot.unavailable_ranges@,
        *descriptor,
        0,
        has_targets,
    );
    let mut seen: bool = has_targets;
    let mut thunk_index: usize = 0;
    let mut thunk_rva: usize = lookup_table_rva;
    loop
        invariant
            data@ == snapshot.bytes@,
            lookup_table_rva == lookup_table(*descriptor),
            thunk_rva == lookup_table_rva + thunk_index * THUNK_SIZE,
            thunk_index == 0 || thunk_rva <= data@.len(),
            expected == walk_thunks(
                snapshot.bytes@,
                snapshot.unavailable_ranges@,
                *descriptor,
                0,
                has_targets,
            ),
            expected == walk_thunks(
                data@,
                snapshot.unavailable_ranges@,
                *descriptor,
                thunk_index as int,
                seen,
            ),
        decreases
                (if thunk_rva <= data@.len() {
                    data@.len() - thunk_rva
                } else {
                    0
                }),
    {
        match find_snapshot_unavailable_overlap(snapshot, thunk_rva, THUNK_SIZE) {
            Some(range) => {
                return AvailabilityWalk { unavailable: Some(range), has_targets: seen };
            },
            None => {},
        }
        if thunk_rva > data.len() || data.len() - thunk_rva < THUNK_SIZE {
            return AvailabilityWalk { unavailable: None, has_targets: seen };
        }
        let thunk_value: u64 = get_u64(data, thunk_rva);
        if thunk_value == 0 {
            return AvailabilityWalk { unavailable: None, has_targets: seen };
        }
        seen = true;
        assert(thunk_index * THUNK_SIZE <= usize::MAX);
        let iat_rva: usize = match (descriptor.first_thunk as usize).checked_add(
            thunk_index * THUNK_SIZE,
        ) {
            Some(value) => value,
            None => return AvailabilityWalk { unavailable: None, has_targets: true },
        };
        match find_snapshot_unavailable_overlap(snapshot, iat_rva, THUNK_SIZE) {
            Some(range) => {
                return AvailabilityWalk { unavailable: Some(range), has_targets: true };
            },
            None => {},
        }
        if thunk_value < IMAGE_ORDINAL_FLAG64 {
            if thunk_value > usize::MAX as u64 {
                return AvailabilityWalk { unavailable: None, has_targets: true };
            }
            let import_by_name_rva: usize = thunk_value as usize;
            let function_name_rva: usize = match import_by_name_rva.checked_add(
                IMPORT_NAME_OFFSET,
            ) {
                Some(value) => value,
                None => return AvailabilityWalk { unavailable: None, has_targets: true },
            };
            let function_name_size: usize = measure_terminated(data, function_name_rva);
            assert(data@.len() <= usize::MAX) by {
                assert(data.len() == data@.len());
            }
            match find_snapshot_unavailable_overlap(
                snapshot,
                import_by_name_rva,
                IMPORT_NAME_OFFSET + function_name_size,
            ) {
                Some(range) => {
                    return AvailabilityWalk { unavailable: Some(range), has_targets: true };
                },
                None => {},
            }
        }
        thunk_index += 1;
        thunk_rva += THUNK_SIZE;
    }
}

/// Finds loader-discarded bytes required by process import parsing or xref scanning.
pub fn find_unavailable_import_range(snapshot: &ValidatedPeSnapshot) -> (r: Option<
    UnavailablePeRange,
>)
    requires
        snapshot.pe.wf(),
    ensures
        r == unavailable_import_range(*snapshot),
{
    if snapshot.unavailable_ranges.len() == 0 {
        return None;
    }
    let import_directory = match get_data_directory(&snapshot.pe, IMAGE_DIRECTORY_ENTRY_IMPORT) {
        Some(value) => value,
        None => return None,
    };
    if import_directory.virtual_address == 0 || import_directory.size == 0 {
        return None;
    }
    match find_snapshot_unavailable_overlap(
        snapshot,
        import_directory.virtual_address as usize,
        import_directory.size as usize,
    ) {
        Some(range) => return Some(range),
        None => {},
    }
    let table = match get_import_descriptors(&snapshot.bytes, &snapshot.pe) {
        Some(value) => value,
        None => return None,
    };
    let ghost walked = walk_descriptors(
        snapshot.bytes@,
        snapshot.unavailable_ranges@,
        table,
        0,
        false,
    );
    let mut has_targets: bool = false;
    let mut index: usize = 0;
    while index < table.count
        invariant_except_break
            index <= table.count,
            table.inside(snapshot.bytes@.len()),
            walked.unavailable is Some ==> unavailable_import_range(*snapshot)
                == walked.unavailable,
            walked == walk_descriptors(
                snapshot.bytes@,
                snapshot.unavailable_ranges@,
                table,
                index as int,
                has_targets,
            ),
        ensures
            walked == (AvailabilityWalk { unavailable: None, has_targets }),
        decreases table.count - index,
    {
        let descriptor = read_descriptor(&snapshot.bytes, &table, index);
        if is_empty_import_descriptor(&descriptor) {
            break;
        }
        let library_name_size: usize = measure_terminated(
            &snapshot.bytes,
            descriptor.name as usize,
        );
        match find_snapshot_unavailable_overlap(
            snapshot,
            descriptor.name as usize,
            library_name_size,
        ) {
            Some(range) => return Some(range),
            None => {},
        }
        let lookup_table_rva: u32 = if descriptor.original_first_thunk != 0 {
            descriptor.original_first_thunk
        } else {
            descriptor.first_thunk
        };
        if lookup_table_rva != 0 && descriptor.first_thunk != 0 {
            let thunks = check_thunks(snapshot, &descriptor, has_targets);
            if thunks.unavailable.is_some() {
                return thunks.unavailable;
            }
            has_targets = thunks.has_targets;
        }
        index += 1;
    }
    if !has_targets {
        return None;
    }
    let mut section_index: usize = 0;
    while section_index < snapshot.pe.sections.len()
        invariant
            section_index <= snapshot.pe.sections@.len(),
            unavailable_import_range(*snapshot) == executable_overlap(
                snapshot.pe.sections@,
                snapshot.unavailable_ranges@,
                section_index as int,
            ),
        decreases snapshot.pe.sections.len() - section_index,
    {
        let section = &snapshot.pe.sections[section_index];
        if section.characteristics & IMAGE_SCN_MEM_EXECUTE != 0 {
            match find_snapshot_unavailable_overlap(
                snapshot,
                section.virtual_address as usize,
                get_mapped_section_size(section),
            ) {
                Some(range) => return Some(range),
                None => {},
            }
        }
        section_index += 1;
    }
    None
}

/// Whether no import of a descriptor ends the reading of its thunks before `count`.
pub open spec fn thunks_go_on(
    data: Seq<u8>,
    pe: PeImage,
    descriptor: ImportDescriptor,
    library: Seq<char>,
    from: int,
    count: int,
) -> bool {
    forall|k: int|
        from <= k < count ==> !(#[trigger] thunk_step(data, pe, descriptor, library, k) is Stop)
}

/// When a walk over the thunks of a descriptor misses nothing, every lookup thunk that import
/// parsing reads avoids the unavailable ranges.
pub proof fn law_complete_walk_reads_available_thunks(
    data: Seq<u8>,
    ranges: Seq<UnavailablePeRange>,
    pe: PeImage,
    descriptor: ImportDescriptor,
    library: Seq<char>,
    from: int,
    count: int,
    has_targets: bool,
)
    requires
        0 <= from <= count,
        data.len() + u32::MAX <= usize::MAX,
        walk_thunks(data, ranges, descriptor, from, has_targets).unavailable is None,
        thunks_go_on(data, pe, descriptor, library, from, count),
    ensures
        unavailable_overlap(
            ranges,
            lookup_table(descriptor) + count * THUNK_SIZE,
            THUNK_SIZE as int,
        ) is None,
    decreases count - from,
{
    if from < count {
        assert(!(thunk_step(data, pe, descriptor, library, from) is Stop));
        law_complete_walk_reads_available_thunks(
            data,
            ranges,
            pe,
            descriptor,
            library,
            from + 1,
            count,
            true,
        );
    }
}

} // verus!
