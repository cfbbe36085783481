//! Image ranges and file offsets, stated byte by byte.

use vstd::prelude::*;

use crate::pe::locate::{
    data_directory, file_offset, image_data_range, section_file_offset, sections_cover,
};
use crate::pe::snapshot::snapshot_range_available;
use crate::pe::types::{NtHeadersView, SectionHeader, ValidatedPeSnapshot};

verus! {

/// The first byte behind a section: its virtual size counts, or its raw size when that is zero.
pub open spec fn section_end(section: SectionHeader) -> int {
    if section.virtual_size != 0 {
        section.virtual_address + section.virtual_size
    } else {
        section.virtual_address + section.size_of_raw_data
    }
}

/// Whether the byte at `at` lies in section `i`.
pub open spec fn in_section(sections: Seq<SectionHeader>, i: int, at: int) -> bool {
    0 <= i < sections.len() && sections[i].virtual_address <= at < section_end(sections[i])
}

/// Whether the byte at `at` lies in one of the sections from `index` on.
pub open spec fn in_section_from(sections: Seq<SectionHeader>, index: int, at: int) -> bool {
    exists|i: int| index <= i && #[trigger] in_section(sections, i, at)
}

/// Whether sections ascend without overlap inside the address range.
pub open spec fn sections_apart(sections: Seq<SectionHeader>) -> bool {
    &&& forall|i: int| 0 <= i < sections.len() ==> section_end(#[trigger] sections[i]) <= usize::MAX
    &&& forall|i: int, j: int|
        0 <= i < j < sections.len() ==> section_end(#[trigger] sections[i]) <= (
        #[trigger] sections[j]).virtual_address
}

/// A data directory is present exactly where both its count and the size of the optional header
/// take it in.
pub proof fn law_directory_is_present(h: NtHeadersView, index: int)
    requires
        0 <= index,
    ensures
        data_directory(h, index) is Some <==> index < h.optional_header.number_of_rva_and_sizes
            && 120 + 8 * index <= h.file_header.size_of_optional_header,
        data_directory(h, index) is Some ==> data_directory(h, index)->0
            == h.data_directories[index],
{
}

/// Sections that hold every byte of a range carry it on without a gap.
proof fn lemma_bytes_are_covered(
    sections: Seq<SectionHeader>,
    index: int,
    covered: int,
    end: int,
)
    requires
        sections_apart(sections),
        0 <= index <= sections.len(),
        covered < end,
        forall|at: int|
            covered <= at < end ==> #[trigger] in_section_from(sections, index, at),
    ensures
        sections_cover(sections, index, covered, end),
    decreases sections.len() - index,
{
    assert(in_section_from(sections, index, covered));
    let here = choose|i: int| index <= i && #[trigger] in_section(sections, i, covered);
    assert(index <= here < sections.len());
    let section = sections[index];
    assert(section.virtual_address <= covered) by {
        assert(sections[index].virtual_address <= sections[here].virtual_address);
    }
    let next = if covered < section_end(section) {
        section_end(section)
    } else {
        covered
    };
    if next < end {
        assert forall|at: int| next <= at < end implies #[trigger] in_section_from(
            sections,
            index + 1,
            at,
        ) by {
            assert(in_section_from(sections, index, at));
            let i = choose|i: int| index <= i && #[trigger] in_section(sections, i, at);
            assert(index + 1 <= i && in_section(sections, i, at));
        }
        lemma_bytes_are_covered(sections, index + 1, next, end);
    }
}

/// A range of the headers is image data exactly when it ends inside them and inside the image.
pub proof fn law_header_range_is_image_data(
    h: NtHeadersView,
    sections: Seq<SectionHeader>,
    rva: int,
    size: int,
)
    requires
        0 <= rva < h.optional_header.size_of_headers,
    ensures
        image_data_range(h, sections, rva, size) <==> size != 0 && rva + size
            <= h.optional_header.size_of_headers && rva + size <= h.optional_header.size_of_image,
{
}

/// A range behind the headers is image data when each of its bytes lies in a section, those that
/// go on from one section to the next included.
pub proof fn law_section_bytes_are_image_data(
    h: NtHeadersView,
    sections: Seq<SectionHeader>,
    rva: int,
    size: int,
)
    requires
        sections_apart(sections),
        h.optional_header.size_of_headers <= rva,
        0 < size,
        rva + size <= h.optional_header.size_of_image,
        forall|at: int|
            rva <= at < rva + size ==> #[trigger] in_section_from(sections, 0, at),
    ensures
        image_data_range(h, sections, rva, size),
{
    lemma_bytes_are_covered(sections, 0, rva, rva + size);
}

/// The sections that carry a range on hold every byte of it.
proof fn lemma_covered_bytes(
    sections: Seq<SectionHeader>,
    index: int,
    covered: int,
    end: int,
    at: int,
) -> (i: int)
    requires
        0 <= index,
        sections_cover(sections, index, covered, end),
        covered <= at < end,
    ensures
        in_section(sections, i, at),
    decreases sections.len() - index,
{
    let section = sections[index];
    if at < section_end(section) {
        index
    } else if covered < section_end(section) {
        lemma_covered_bytes(sections, index + 1, section_end(section), end, at)
    } else {
        lemma_covered_bytes(sections, index + 1, covered, end, at)
    }
}

/// Each byte of image data lies in the image, and in the headers or in a section.
pub proof fn law_image_data_bytes(
    h: NtHeadersView,
    sections: Seq<SectionHeader>,
    rva: int,
    size: int,
    at: int,
)
    requires
        image_data_range(h, sections, rva, size),
        0 <= rva <= at < rva + size,
    ensures
        at < h.optional_header.size_of_image,
        at < h.optional_header.size_of_headers || exists|i: int| #[trigger]
            in_section(sections, i, at),
        rva < h.optional_header.size_of_headers ==> at < h.optional_header.size_of_headers,
{
    if rva >= h.optional_header.size_of_headers {
        let i = lemma_covered_bytes(sections, 0, rva, rva + size, at);
        assert(in_section(sections, i, at));
    }
}

/// A snapshot range is available exactly when it is image data that was copied whole: inside the
/// bytes, and clear of every range that was not read.
pub proof fn law_available_ranges(snapshot: ValidatedPeSnapshot, rva: int, size: int)
    ensures
        snapshot_range_available(snapshot, rva, size) <==> {
            &&& rva + size <= snapshot.bytes@.len()
            &&& image_data_range(snapshot.pe.nt_headers@, snapshot.pe.sections@, rva, size)
            &&& forall|i: int|
                0 <= i < snapshot.unavailable_ranges@.len() ==> rva + size <= (
                #[trigger] snapshot.unavailable_ranges@[i]).rva
                    || snapshot.unavailable_ranges@[i].rva + snapshot.unavailable_ranges@[i].size
                    <= rva
        },
{
}

/// What the sections give before the first one that holds the RVA.
proof fn lemma_holding_section(sections: Seq<SectionHeader>, index: int, rva: int, i: int)
    requires
        0 <= index <= i < sections.len(),
        in_section(sections, i, rva),
        forall|j: int|
            index <= j <= i ==> section_end(#[trigger] sections[j]) <= usize::MAX && (j < i ==> !(
            sections[j].virtual_address <= rva < section_end(sections[j]))),
    ensures
        ({
            let delta = rva - sections[i].virtual_address;
            section_file_offset(sections, index, rva) == (if delta < sections[i].size_of_raw_data
                && sections[i].pointer_to_raw_data + delta <= usize::MAX {
                Some((sections[i].pointer_to_raw_data + delta) as usize)
            } else {
                None
            })
        }),
    decreases i - index,
{
    assert(section_end(sections[index]) <= usize::MAX);
    if index < i {
        lemma_holding_section(sections, index + 1, rva, i);
    }
}

/// Sections that do not hold the RVA give nothing.
proof fn lemma_no_holding_section(sections: Seq<SectionHeader>, index: int, rva: int)
    requires
        0 <= index,
        forall|j: int|
            index <= j < sections.len() ==> !((#[trigger] sections[j]).virtual_address <= rva
                < section_end(sections[j])),
    ensures
        section_file_offset(sections, index, rva) is None,
    decreases sections.len() - index,
{
    if index < sections.len() {
        lemma_no_holding_section(sections, index + 1, rva);
    }
}

/// Inside the headers the file holds an image as memory does.
pub proof fn law_header_offsets(h: NtHeadersView, sections: Seq<SectionHeader>, rva: int)
    requires
        0 <= rva < h.optional_header.size_of_headers,
    ensures
        file_offset(h, sections, rva) == Some(rva as usize),
{
}

/// Behind the headers the section that holds an RVA says where the file holds it: as far into the
/// raw data as into the section, and nowhere behind the raw data.
pub proof fn law_section_offsets(
    h: NtHeadersView,
    sections: Seq<SectionHeader>,
    rva: int,
    i: int,
)
    requires
        h.optional_header.size_of_headers <= rva,
        sections_apart(sections),
        in_section(sections, i, rva),
    ensures
        ({
            let delta = rva - sections[i].virtual_address;
            let stored = delta < sections[i].size_of_raw_data && sections[i].pointer_to_raw_data
                + delta <= usize::MAX;
            &&& file_offset(h, sections, rva) is Some <==> stored
            &&& stored ==> file_offset(h, sections, rva)->0 == sections[i].pointer_to_raw_data
                + delta
        }),
{
    assert forall|j: int| 0 <= j < i implies !((#[trigger] sections[j]).virtual_address <= rva
        < section_end(sections[j])) by {
        assert(section_end(sections[j]) <= sections[i].virtual_address);
    }
    lemma_holding_section(sections, 0, rva, i);
}

/// An RVA behind the headers that no section holds has no place in the file.
pub proof fn law_padding_has_no_offset(h: NtHeadersView, sections: Seq<SectionHeader>, rva: int)
    requires
        h.optional_header.size_of_headers <= rva,
        forall|i: int| !(#[trigger] in_section(sections, i, rva)),
    ensures
        file_offset(h, sections, rva) is None,
{
    assert forall|j: int| 0 <= j < sections.len() implies !((
    #[trigger] sections[j]).virtual_address <= rva < section_end(sections[j])) by {
        assert(!in_section(sections, j, rva));
    }
    lemma_no_holding_section(sections, 0, rva);
}

} // verus!
