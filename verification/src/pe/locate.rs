//! Locating directories, sections and file offsets in a parsed image.

use vstd::prelude::*;

use super::headers::{DATA_DIRECTORY_OFFSET, DATA_DIRECTORY_SIZE};
use super::types::{
    DataDirectory, NtHeaders, NtHeadersView, PeImage, PeSectionInfo, SectionHeader,
};
use crate::bytes::{find_nul, nul_index};
use crate::text::{lossy_text, utf8_lossy};

verus! {

/// Whether the headers declare data directory `index` and their optional header includes it.
pub open spec fn directory_declared(h: NtHeadersView, index: int) -> bool {
    &&& index < h.optional_header.number_of_rva_and_sizes
    &&& DATA_DIRECTORY_OFFSET + (index + 1) * DATA_DIRECTORY_SIZE
        <= h.file_header.size_of_optional_header
}

/// The data directory `index`, when the headers declare and include it.
pub open spec fn data_directory(h: NtHeadersView, index: int) -> Option<DataDirectory> {
    if directory_declared(h, index) {
        Some(h.data_directories[index])
    } else {
        None
    }
}

/// The loaded-memory span of a section: its virtual size, or its raw size when that is zero.
pub open spec fn mapped_size(section: SectionHeader) -> int {
    if section.virtual_size == 0 {
        section.size_of_raw_data as int
    } else {
        section.virtual_size as int
    }
}

/// The exclusive end RVA of a section's mapped span.
pub open spec fn mapped_end(section: SectionHeader) -> int {
    section.virtual_address + mapped_size(section)
}

/// Whether `rva` lies in the mapped span of `section`.
pub open spec fn section_contains(section: SectionHeader, rva: int) -> bool {
    section.virtual_address <= rva < mapped_end(section)
}

/// Whether some section's mapped span holds `rva`.
pub open spec fn in_some_section(sections: Seq<SectionHeader>, rva: int) -> bool {
    exists|i: int| 0 <= i < sections.len() && #[trigger] section_contains(sections[i], rva)
}

/// Retrieves one declared data-directory entry, only when both the declared count and the
/// optional-header size take it in.
pub fn get_data_directory(pe: &PeImage, directory_index: usize) -> (r: Option<DataDirectory>)
    requires
        directory_declared(pe.nt_headers@, directory_index as int) ==> directory_index
            < pe.nt_headers.data_directories@.len(),
    ensures
        r == data_directory(pe.nt_headers@, directory_index as int),
{
    if pe.nt_headers.optional_header.number_of_rva_and_sizes as usize <= directory_index {
        return None;
    }
    let entries_size: usize = match (directory_index + 1).checked_mul(DATA_DIRECTORY_SIZE) {
        Some(value) => value,
        None => return None,
    };
    let required_size: usize = match DATA_DIRECTORY_OFFSET.checked_add(entries_size) {
        Some(value) => value,
        None => return None,
    };
    if (pe.nt_headers.file_header.size_of_optional_header as usize) < required_size {
        return None;
    }
    Some(pe.nt_headers.data_directories[directory_index])
}

/// Retrieves the loaded-memory span represented by a section header.
pub fn get_mapped_section_size(section: &SectionHeader) -> (r: usize)
    ensures
        r == mapped_size(*section),
{
    if section.virtual_size == 0 {
        section.size_of_raw_data as usize
    } else {
        section.virtual_size as usize
    }
}

/// The section name: the bytes before the first zero byte, decoded.
pub open spec fn section_name(section: SectionHeader) -> Seq<char> {
    lossy_text(section.name@.subrange(0, nul_index(section.name@, 0)))
}

/// Decodes the section name up to its first zero byte.
pub fn decode_section_name(section: &SectionHeader) -> (r: String)
    ensures
        r@ == section_name(*section),
{
    let name: &[u8] = &section.name;
    let length: usize = match find_nul(name, 0) {
        Some(index) => index,
        None => name.len(),
    };
    proof {
        crate::bytes::lemma_nul_index(name@, 0);
    }
    utf8_lossy(vstd::slice::slice_subrange(name, 0, length))
}

impl PeSectionInfo {
    /// This record describes `section`.
    pub open spec fn describes(&self, section: SectionHeader) -> bool {
        &&& self.name@ == section_name(section)
        &&& self.rva == section.virtual_address
        &&& self.virtual_size == section.virtual_size
        &&& self.raw_size == section.size_of_raw_data
        &&& self.mapped_size == mapped_size(section)
        &&& self.raw_file_offset == section.pointer_to_raw_data
        &&& self.characteristics == section.characteristics
    }
}

/// Collects section metadata in section-table order.
pub fn collect_sections_from_pe(pe: &PeImage) -> (r: Vec<PeSectionInfo>)
    ensures
        r@.len() == pe.sections@.len(),
        forall|i: int| 0 <= i < r@.len() ==> (#[trigger] r@[i]).describes(pe.sections@[i]),
{
    let mut infos: Vec<PeSectionInfo> = Vec::with_capacity(pe.sections.len());
    let mut index: usize = 0;
    while index < pe.sections.len()
        invariant
            index <= pe.sections@.len(),
            infos@.len() == index,
            forall|i: int| 0 <= i < index ==> (#[trigger] infos@[i]).describes(pe.sections@[i]),
        decreases pe.sections.len() - index,
    {
        let section = &pe.sections[index];
        let info = PeSectionInfo {
            name: decode_section_name(section),
            rva: section.virtual_address as usize,
            virtual_size: section.virtual_size as usize,
            raw_size: section.size_of_raw_data as usize,
            mapped_size: get_mapped_section_size(section),
            raw_file_offset: section.pointer_to_raw_data as usize,
            characteristics: section.characteristics,
        };
        infos.push(info);
        index += 1;
    }
    infos
}

/// The raw-file offset that the sections from `index` on give `rva`. The first section whose
/// mapped span holds `rva` decides; a span beyond the address range ends the search.
pub open spec fn section_file_offset(
    sections: Seq<SectionHeader>,
    index: int,
    rva: int,
) -> Option<usize>
    decreases sections.len() - index,
{
    if index >= sections.len() {
        None
    } else if mapped_end(sections[index]) > usize::MAX {
        None
    } else if section_contains(sections[index], rva) {
        let delta = rva - sections[index].virtual_address;
        if delta >= sections[index].size_of_raw_data || sections[index].pointer_to_raw_data + delta
            > usize::MAX {
            None
        } else {
            Some((sections[index].pointer_to_raw_data + delta) as usize)
        }
    } else {
        section_file_offset(sections, index + 1, rva)
    }
}

/// The raw-file offset of `rva`: itself inside the headers, else what the sections give.
pub open spec fn file_offset(h: NtHeadersView, sections: Seq<SectionHeader>, rva: int) -> Option<
    usize,
> {
    if rva < h.optional_header.size_of_headers {
        Some(rva as usize)
    } else {
        section_file_offset(sections, 0, rva)
    }
}

impl PeImage {
    /// The raw-file offset of `rva` in this image.
    pub open spec fn file_offset(&self, rva: int) -> Option<usize> {
        file_offset(self.nt_headers@, self.sections@, rva)
    }
}

/// Retrieves the section-aware raw-file offset of an RVA.
pub fn get_file_offset_from_pe(pe: &PeImage, rva: usize) -> (r: Option<usize>)
    ensures
        r == pe.file_offset(rva as int),
{
    let headers_size: usize = pe.nt_headers.optional_header.size_of_headers as usize;
    if rva < headers_size {
        return Some(rva);
    }
    let mut index: usize = 0;
    while index < pe.sections.len()
        invariant
            index <= pe.sections@.len(),
            section_file_offset(pe.sections@, 0, rva as int) == section_file_offset(
                pe.sections@,
                index as int,
                rva as int,
            ),
            pe.file_offset(rva as int) == section_file_offset(pe.sections@, 0, rva as int),
        decreases pe.sections.len() - index,
    {
        let section = &pe.sections[index];
        let section_start: usize = section.virtual_address as usize;
        let raw_size: usize = section.size_of_raw_data as usize;
        let raw_pointer: usize = section.pointer_to_raw_data as usize;
        let section_end: usize = match section_start.checked_add(get_mapped_section_size(section)) {
            Some(value) => value,
            None => return None,
        };
        if rva >= section_start && rva < section_end {
            let file_delta: usize = rva - section_start;
            if raw_size == 0 || file_delta >= raw_size {
                return None;
            }
            return raw_pointer.checked_add(file_delta);
        }
        index += 1;
    }
    None
}

/// Whether the sections from `index` on carry a range on from `covered` to `end` without a gap.
/// Sections are taken in table order; a gap before the next section, or a span beyond the address
/// range, fails.
pub open spec fn sections_cover(
    sections: Seq<SectionHeader>,
    index: int,
    covered: int,
    end: int,
) -> bool
    decreases sections.len() - index,
{
    if index >= sections.len() {
        false
    } else if mapped_end(sections[index]) > usize::MAX || covered < sections[index].virtual_address {
        false
    } else if covered < mapped_end(sections[index]) {
        end <= mapped_end(sections[index]) || sections_cover(
            sections,
            index + 1,
            mapped_end(sections[index]),
            end,
        )
    } else {
        sections_cover(sections, index + 1, covered, end)
    }
}

/// Whether `[rva, rva + size)` is not empty, lies in the image, and is backed by the mapped
/// headers alone or by section data alone.
pub open spec fn image_data_range(
    h: NtHeadersView,
    sections: Seq<SectionHeader>,
    rva: int,
    size: int,
) -> bool {
    &&& size != 0
    &&& rva + size <= h.optional_header.size_of_image
    &&& if rva < h.optional_header.size_of_headers {
        rva + size <= h.optional_header.size_of_headers
    } else {
        sections_cover(sections, 0, rva, rva + size)
    }
}

/// Reports whether one RVA range is fully backed by mapped headers or section data.
pub fn is_image_data_range(
    nt_headers: &NtHeaders,
    sections: &[SectionHeader],
    rva: usize,
    size: usize,
) -> (r: bool)
    ensures
        r == image_data_range(nt_headers@, sections@, rva as int, size as int),
{
    if size == 0 {
        return false;
    }
    let end_rva: usize = match rva.checked_add(size) {
        Some(value) => value,
        None => return false,
    };
    if end_rva > nt_headers.optional_header.size_of_image as usize {
        return false;
    }
    let size_of_headers: usize = nt_headers.optional_header.size_of_headers as usize;
    if rva < size_of_headers {
        return end_rva <= size_of_headers;
    }
    let mut covered_end_rva: usize = rva;
    let mut index: usize = 0;
    while index < sections.len()
        invariant
            index <= sections@.len(),
            covered_end_rva < end_rva,
            sections_cover(sections@, 0, rva as int, end_rva as int) == sections_cover(
                sections@,
                index as int,
                covered_end_rva as int,
                end_rva as int,
            ),
            image_data_range(nt_headers@, sections@, rva as int, size as int) == sections_cover(
                sections@,
                0,
                rva as int,
                end_rva as int,
            ),
        decreases sections.len() - index,
    {
        let section_start_rva: usize = sections[index].virtual_address as usize;
        let section_end_rva: usize = match section_start_rva.checked_add(
            get_mapped_section_size(&sections[index]),
        ) {
            Some(value) => value,
            None => return false,
        };
        if covered_end_rva < section_start_rva {
            return false;
        }
        if covered_end_rva < section_end_rva {
            if end_rva <= section_end_rva {
                return true;
            }
            covered_end_rva = section_end_rva;
        }
        index += 1;
    }
    false
}

/// A covered range holds only bytes of sections.
proof fn lemma_sections_cover(sections: Seq<SectionHeader>, index: int, covered: int, end: int)
    requires
        0 <= index,
        sections_cover(sections, index, covered, end),
    ensures
        forall|rva: int| covered <= rva < end ==> #[trigger] in_some_section(sections, rva),
    decreases sections.len() - index,
{
    let section = sections[index];
    if covered < mapped_end(section) {
        if end > mapped_end(section) {
            lemma_sections_cover(sections, index + 1, mapped_end(section), end);
        }
        assert forall|rva: int| covered <= rva < end implies #[trigger] in_some_section(
            sections,
            rva,
        ) by {
            if rva < mapped_end(section) {
                assert(section_contains(sections[index], rva));
            }
        }
    } else {
        lemma_sections_cover(sections, index + 1, covered, end);
    }
}

/// Every byte of an image-data range belongs to the mapped headers or to a section: no such range
/// touches alignment padding.
pub proof fn law_image_data_range_avoids_padding(
    h: NtHeadersView,
    sections: Seq<SectionHeader>,
    rva: int,
    size: int,
)
    requires
        image_data_range(h, sections, rva, size),
        0 <= rva,
    ensures
        forall|at: int|
            rva <= at < rva + size ==> at < h.optional_header.size_of_headers
                || #[trigger] in_some_section(sections, at),
{
    if rva >= h.optional_header.size_of_headers {
        lemma_sections_cover(sections, 0, rva, rva + size);
    }
}

/// A file offset beyond the headers belongs to stored data: some section holds the RVA, and the
/// offset lies that far into the section's raw data.
pub proof fn law_file_offsets_are_raw_backed(
    h: NtHeadersView,
    sections: Seq<SectionHeader>,
    rva: int,
)
    requires
        h.optional_header.size_of_headers <= rva,
        file_offset(h, sections, rva) is Some,
    ensures
        exists|i: int|
            0 <= i < sections.len() && #[trigger] section_contains(sections[i], rva) && rva
                - sections[i].virtual_address < sections[i].size_of_raw_data && file_offset(
                h,
                sections,
                rva,
            )->0 == sections[i].pointer_to_raw_data + (rva - sections[i].virtual_address),
{
    lemma_section_file_offset(sections, 0, rva);
}

/// A section file offset lies in the raw data of a section that holds the RVA.
proof fn lemma_section_file_offset(sections: Seq<SectionHeader>, index: int, rva: int)
    requires
        0 <= index,
        section_file_offset(sections, index, rva) is Some,
    ensures
        exists|i: int|
            index <= i < sections.len() && #[trigger] section_contains(sections[i], rva) && rva
                - sections[i].virtual_address < sections[i].size_of_raw_data
                && section_file_offset(sections, index, rva)->0
                == sections[i].pointer_to_raw_data + (rva - sections[i].virtual_address),
    decreases sections.len() - index,
{
    if section_contains(sections[index], rva) {
        assert(section_contains(sections[index], rva));
    } else {
        lemma_section_file_offset(sections, index + 1, rva);
    }
}

} // verus!
