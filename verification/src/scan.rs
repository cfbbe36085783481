//! The executable ranges of a snapshot that scans go over.

use vstd::prelude::*;

use crate::arith::min_usize;
use crate::pe::layout::executable;
use crate::pe::locate::{get_mapped_section_size, mapped_size};
use crate::pe::types::{SectionHeader, UnavailablePeRange, ValidatedPeSnapshot};
use crate::progress::interval_updates;
use crate::ranges::{avoids_all, avoids_unavailable, saturated_end};
use crate::windows::IMAGE_SCN_MEM_EXECUTE;

verus! {

/// The exclusive end of the scanned part of a section in an image of `len` bytes.
pub open spec fn scan_end(section: SectionHeader, len: int) -> int {
    let end = saturated_end(section.virtual_address as int, mapped_size(section));
    if end <= len {
        end
    } else {
        len
    }
}

/// The number of scanned bytes of a section.
pub open spec fn scan_size(section: SectionHeader, len: int) -> int {
    if section.virtual_address < scan_end(section, len) {
        scan_end(section, len) - section.virtual_address
    } else {
        0
    }
}

/// Whether a section is executable and has scanned bytes.
pub open spec fn scanned(section: SectionHeader, len: int) -> bool {
    executable(section) && scan_size(section, len) > 0
}

/// The scanned bytes of a section.
pub open spec fn scanned_bytes(bytes: Seq<u8>, section: SectionHeader) -> Seq<u8> {
    bytes.subrange(section.virtual_address as int, scan_end(section, bytes.len() as int))
}

/// The executable bytes in the first `count` sections.
pub open spec fn executable_bytes(sections: Seq<SectionHeader>, count: int, len: int) -> usize
    decreases count,
{
    if count <= 0 {
        0
    } else if executable(sections[count - 1]) {
        executable_bytes(sections, count - 1, len).saturating_add(
            scan_size(sections[count - 1], len) as usize,
        )
    } else {
        executable_bytes(sections, count - 1, len)
    }
}

/// Whether every executable section is wholly available.
pub open spec fn executable_complete(
    sections: Seq<SectionHeader>,
    unavailable: Seq<UnavailablePeRange>,
) -> bool {
    forall|i: int|
        0 <= i < sections.len() && executable(#[trigger] sections[i]) ==> avoids_all(
            unavailable,
            sections[i].virtual_address as int,
            mapped_size(sections[i]),
        )
}

/// The updates of one scan over every scanned byte of the first `count` sections: one at the
/// start, one at each interval, one behind each section.
pub open spec fn scan_updates(
    sections: Seq<SectionHeader>,
    count: int,
    len: int,
    total: usize,
) -> Seq<(usize, usize)>
    decreases count,
{
    if count <= 0 {
        seq![(0usize, total)]
    } else if scanned(sections[count - 1], len) {
        scan_updates(sections, count - 1, len, total) + interval_updates(
            executable_bytes(sections, count - 1, len),
            scan_size(sections[count - 1], len),
            total,
        ) + seq![(executable_bytes(sections, count, len), total)]
    } else {
        scan_updates(sections, count - 1, len, total)
    }
}

/// The scanned range of an executable section with scanned bytes.
pub fn scan_range(section: &SectionHeader, len: usize) -> (r: Option<(usize, usize)>)
    ensures
        r == (if scanned(*section, len as int) {
            Some((section.virtual_address as usize, scan_end(*section, len as int) as usize))
        } else {
            None
        }),
{
    if section.characteristics & IMAGE_SCN_MEM_EXECUTE == 0 {
        return None;
    }
    let section_start: usize = section.virtual_address as usize;
    let section_end: usize = min_usize(
        section_start.saturating_add(get_mapped_section_size(section)),
        len,
    );
    if section_start >= section_end {
        return None;
    }
    Some((section_start, section_end))
}

/// Counts the executable bytes of an image.
pub fn count_executable_bytes(sections: &[SectionHeader], len: usize) -> (r: usize)
    ensures
        r == executable_bytes(sections@, sections@.len() as int, len as int),
{
    let mut total: usize = 0;
    let mut index: usize = 0;
    while index < sections.len()
        invariant
            index <= sections@.len(),
            total == executable_bytes(sections@, index as int, len as int),
        decreases sections.len() - index,
    {
        match scan_range(&sections[index], len) {
            Some((start, end)) => {
                total = total.saturating_add(end - start);
            },
            None => {},
        }
        index += 1;
    }
    total
}

/// Reports whether every executable section of a snapshot is wholly available.
pub fn is_executable_complete(snapshot: &ValidatedPeSnapshot) -> (r: bool)
    ensures
        r == executable_complete(snapshot.pe.sections@, snapshot.unavailable_ranges@),
{
    let mut index: usize = 0;
    while index < snapshot.pe.sections.len()
        invariant
            index <= snapshot.pe.sections@.len(),
            forall|i: int|
                0 <= i < index && executable(#[trigger] snapshot.pe.sections@[i]) ==> avoids_all(
                    snapshot.unavailable_ranges@,
                    snapshot.pe.sections@[i].virtual_address as int,
                    mapped_size(snapshot.pe.sections@[i]),
                ),
        decreases snapshot.pe.sections.len() - index,
    {
        let section = &snapshot.pe.sections[index];
        let ghost seen = snapshot.pe.sections@[index as int];
        if section.characteristics & IMAGE_SCN_MEM_EXECUTE != 0 && !avoids_unavailable(
            &snapshot.unavailable_ranges,
            section.virtual_address as usize,
            get_mapped_section_size(section),
        ) {
            assert(executable(seen));
            return false;
        }
        index += 1;
    }
    true
}

} // verus!
