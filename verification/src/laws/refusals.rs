//! Refusals of an image, each stated by its cause.

use vstd::prelude::*;

use crate::bytes::{le16, le32, signed32};
use crate::laws::image::{
    base_of_code_stands, begins_behind, directory_has_place, directory_may_stand,
    entry_point_stands, lemma_base_of_code, lemma_begins_behind, lemma_entry_point,
    lemma_optional_words, lemma_raw_in_order,
};
use crate::laws::locate::section_end;
use crate::pe::headers::{directory_count, first_directory_error, nt_headers_error, parse_error};
use crate::pe::layout::{
    first_directory_layout_error, first_section_error, parsed_pe_error, section_layout_error,
};
use crate::pe::types::{NtHeadersView, PeValidationError, SectionHeader};

verus! {

/// Whether bytes give the cause of a refused parse.
pub open spec fn parse_cause(bytes: Seq<u8>, error: PeValidationError) -> bool {
    let at = le32(bytes, 60) as int;
    let optional_size = le16(bytes, at + 20);
    match error {
        PeValidationError::DataTooSmall { offset, bytes_requested, data_size } => {
            &&& data_size == bytes.len()
            &&& offset + bytes_requested > bytes.len()
            &&& bytes.len() < 64 ==> offset == 0 && bytes_requested == 64
        },
        PeValidationError::InvalidDosSignature { signature } => {
            &&& signature == le16(bytes, 0)
            &&& signature != 0x5A4D
            &&& bytes.len() >= 64
        },
        PeValidationError::InvalidNtHeadersOffset { offset } => {
            &&& offset == signed32(le32(bytes, 60))
            &&& offset < 64 || offset as int % 8 != 0
        },
        PeValidationError::InvalidNtSignature { signature } => {
            signature == le32(bytes, at) && signature != 0x4550
        },
        PeValidationError::UnsupportedMachine { machine } => {
            machine == le16(bytes, at + 4) && machine != 0x8664
        },
        PeValidationError::InvalidOptionalHeaderSize { size } => {
            size == optional_size && size < 112
        },
        PeValidationError::UnsupportedOptionalHeaderMagic { magic } => {
            magic == le16(bytes, at + 24) && magic != 0x20B
        },
        PeValidationError::InvalidDataDirectoryCount { declared_count, available_count } => {
            &&& declared_count == le32(bytes, at + 132)
            &&& declared_count > available_count
            &&& available_count <= 16
            &&& 112 + 8 * available_count <= optional_size
        },
        PeValidationError::InvalidSectionCount { count } => {
            count == le16(bytes, at + 6) && (count == 0 || count > 96)
        },
        PeValidationError::InvalidImageSize => le32(bytes, at + 80) == 0,
        PeValidationError::InvalidHeadersSize { size_of_headers, image_size } => {
            &&& size_of_headers == le32(bytes, at + 84)
            &&& image_size == le32(bytes, at + 80)
            &&& size_of_headers == 0 || size_of_headers > image_size
        },
        PeValidationError::HeadersOutsideData { size_of_headers, data_size } => {
            &&& size_of_headers == le32(bytes, at + 84)
            &&& data_size == bytes.len()
            &&& size_of_headers > data_size
        },
        PeValidationError::SectionTableOutsideHeaders { section_table_end, size_of_headers } => {
            &&& section_table_end == at + 24 + optional_size + 40 * le16(bytes, at + 6)
            &&& size_of_headers == le32(bytes, at + 84)
            &&& section_table_end > size_of_headers
        },
        _ => false,
    }
}

/// Bytes that do not parse are refused for a cause that they give.
pub proof fn law_parse_refusals(bytes: Seq<u8>)
    requires
        usize::MAX >= 0xFFFF_FFFF_FFFF_FFFF,
        bytes.len() < 0x4000_0000_0000_0000,
        parse_error(bytes) is Some,
    ensures
        parse_cause(bytes, parse_error(bytes)->0),
{
    let at = le32(bytes, 60) as int;
    let size = le16(bytes, at + 20) as int;
    if size >= 112 {
        lemma_optional_words(bytes, at + 24, size, 0);
        lemma_optional_words(bytes, at + 24, size, 56);
        lemma_optional_words(bytes, at + 24, size, 60);
        lemma_optional_words(bytes, at + 24, size, 108);
    }
}

/// The first directory that is refused by the headers, from `index` on.
proof fn lemma_refused_directory(h: NtHeadersView, index: int) -> (d: int)
    requires
        h.wf(),
        0 <= index,
        first_directory_error(h, index) is Some,
    ensures
        index <= d < h.optional_header.number_of_rva_and_sizes,
        d < 16,
        !directory_may_stand(h, d),
        forall|e: int| index <= e < d ==> #[trigger] directory_may_stand(h, e),
        first_directory_error(h, index) == Some(
            PeValidationError::InvalidDataDirectoryRange {
                index: d as usize,
                virtual_address: h.data_directories[d].virtual_address as usize,
                size: h.data_directories[d].size as usize,
                image_size: h.optional_header.size_of_image as usize,
            },
        ),
    decreases directory_count(h) - index,
{
    if directory_may_stand(h, index) {
        lemma_refused_directory(h, index + 1)
    } else {
        index
    }
}

/// Whether headers give the cause of their refusal, beside those that a parse tells.
pub open spec fn header_cause(h: NtHeadersView, error: PeValidationError) -> bool {
    let o = h.optional_header;
    match error {
        PeValidationError::MissingExecutableImageCharacteristic { characteristics } => {
            characteristics == h.file_header.characteristics && characteristics & 2 == 0
        },
        PeValidationError::NonZeroReservedOptionalHeaderFields { win32_version_value, loader_flags } => {
            &&& win32_version_value == o.win32_version_value
            &&& loader_flags == o.loader_flags
            &&& win32_version_value != 0 || loader_flags != 0
        },
        PeValidationError::InvalidImageAlignment { section_alignment, file_alignment } => {
            section_alignment == o.section_alignment && file_alignment == o.file_alignment
        },
        PeValidationError::InvalidImageBase { image_base } => {
            image_base == o.image_base && image_base % 0x1_0000 != 0
        },
        PeValidationError::ImageSizeExceedsMaximum { image_size, maximum_image_size } => {
            &&& image_size == o.size_of_image
            &&& maximum_image_size == 0x8000_0000
            &&& image_size > maximum_image_size
        },
        PeValidationError::InvalidDataDirectoryRange { index, virtual_address, size, image_size } => {
            &&& index < 16
            &&& index < o.number_of_rva_and_sizes
            &&& virtual_address == h.data_directories[index as int].virtual_address
            &&& size == h.data_directories[index as int].size
            &&& image_size == o.size_of_image
            &&& !directory_may_stand(h, index as int)
        },
        PeValidationError::InvalidEntryPoint { entry_point_rva, image_size } => {
            &&& entry_point_rva == o.address_of_entry_point
            &&& image_size == o.size_of_image
            &&& entry_point_rva >= image_size
            &&& entry_point_rva != 0
        },
        _ => true,
    }
}

/// Headers are refused for a cause that they give.
pub proof fn law_header_refusals(h: NtHeadersView, nt_offset: int)
    requires
        usize::MAX >= 0xFFFF_FFFF_FFFF_FFFF,
        h.wf(),
        0 <= nt_offset < 0x8000_0000,
        nt_headers_error(h, nt_offset) is Some,
    ensures
        header_cause(h, nt_headers_error(h, nt_offset)->0),
{
    if first_directory_error(h, 0) is Some {
        let d = lemma_refused_directory(h, 0);
    }
}

/// The first section that is refused, from `index` on, tells why.
proof fn lemma_refused_section(h: NtHeadersView, sections: Seq<SectionHeader>, index: int)
    requires
        usize::MAX >= 0xFFFF_FFFF_FFFF_FFFF,
        h.optional_header.section_alignment > 0,
        0 <= index,
        sections.len() <= 96,
        first_section_error(h, sections, index) is Some,
    ensures
        section_cause(h, sections, first_section_error(h, sections, index)->0),
    decreases sections.len() - index,
{
    let alignment = h.optional_header.section_alignment as int;
    let before = end_before(h, sections, index);
    assert(crate::pe::layout::previous_end(h, sections, index) == before);
    crate::arith::lemma_align_up(before, alignment);
    lemma_begins_behind(sections[index].virtual_address as int, before, alignment);
    if h.optional_header.file_alignment > 0 {
        lemma_raw_in_order(h, sections, index);
    }
    crate::arith::lemma_align_up(
        section_end(sections[index]),
        h.optional_header.section_alignment as int,
    );
    if crate::pe::layout::section_error(h, sections, index) is None {
        lemma_refused_section(h, sections, index + 1);
    }
}

/// What stands before section `i`.
pub open spec fn end_before(h: NtHeadersView, sections: Seq<SectionHeader>, i: int) -> int {
    if i == 0 {
        h.optional_header.size_of_headers as int
    } else {
        section_end(sections[i - 1])
    }
}

/// Whether sections give the cause of their refusal.
pub open spec fn section_cause(
    h: NtHeadersView,
    sections: Seq<SectionHeader>,
    error: PeValidationError,
) -> bool {
    let o = h.optional_header;
    match error {
        PeValidationError::OverlappingSections { index, previous_end_rva, section_rva } => {
            &&& index < sections.len()
            &&& section_rva == sections[index as int].virtual_address
            &&& previous_end_rva == end_before(h, sections, index as int)
            &&& section_rva < previous_end_rva + o.section_alignment
            &&& !begins_behind(
                section_rva as int,
                previous_end_rva as int,
                o.section_alignment as int,
            )
        },
        PeValidationError::InvalidSectionLayout { index, section_rva } => {
            &&& index < sections.len()
            &&& section_rva == sections[index as int].virtual_address
            &&& section_rva > end_before(h, sections, index as int)
            &&& !begins_behind(
                section_rva as int,
                end_before(h, sections, index as int),
                o.section_alignment as int,
            )
        },
        PeValidationError::InvalidSectionRange { index, section_rva, mapped_size, image_size } => {
            &&& index < sections.len()
            &&& section_rva == sections[index as int].virtual_address
            &&& section_rva + mapped_size == section_end(sections[index as int])
            &&& image_size == o.size_of_image
            &&& mapped_size == 0 || section_rva + mapped_size > image_size
        },
        PeValidationError::InvalidSectionRawLayout { index, raw_size, raw_pointer, file_alignment } => {
            &&& index < sections.len()
            &&& raw_size == sections[index as int].size_of_raw_data
            &&& raw_pointer == sections[index as int].pointer_to_raw_data
            &&& file_alignment == o.file_alignment
            &&& file_alignment > 0 ==> !crate::laws::image::raw_data_in_order(
                h,
                sections,
                index as int,
            )
        },
        PeValidationError::InvalidEntryPoint { entry_point_rva, image_size } => {
            &&& entry_point_rva == o.address_of_entry_point
            &&& image_size == o.size_of_image
            &&& !entry_point_stands(h, sections)
        },
        PeValidationError::InvalidBaseOfCode { base_of_code_rva, expected_base_of_code_rva } => {
            &&& base_of_code_rva == o.base_of_code
            &&& base_of_code_rva != expected_base_of_code_rva
            &&& !base_of_code_stands(h, sections)
        },
        PeValidationError::InvalidFinalImageSize { expected_image_size, actual_image_size } => {
            &&& actual_image_size == o.size_of_image
            &&& expected_image_size != actual_image_size
        },
        _ => false,
    }
}

/// A layout is refused for a cause that the sections give.
pub proof fn law_layout_refusals(h: NtHeadersView, sections: Seq<SectionHeader>)
    requires
        usize::MAX >= 0xFFFF_FFFF_FFFF_FFFF,
        h.optional_header.section_alignment > 0,
        sections.len() <= 96,
        section_layout_error(h, sections) is Some,
    ensures
        section_cause(h, sections, section_layout_error(h, sections)->0),
{
    let alignment = h.optional_header.section_alignment as int;
    crate::arith::lemma_align_up(h.optional_header.size_of_headers as int, alignment);
    if first_section_error(h, sections, 0) is Some {
        lemma_refused_section(h, sections, 0);
    } else {
        lemma_entry_point(h, sections);
        lemma_base_of_code(h, sections);
        if sections.len() > 0 {
            crate::arith::lemma_align_up(section_end(sections.last()), alignment);
        }
    }
}

/// The first directory without a place, from `index` on.
proof fn lemma_misplaced_directory(
    h: NtHeadersView,
    sections: Seq<SectionHeader>,
    index: int,
) -> (d: int)
    requires
        h.wf(),
        0 <= index,
        first_directory_layout_error(h, sections, index) is Some,
    ensures
        index <= d < h.optional_header.number_of_rva_and_sizes,
        d < 16,
        !directory_has_place(h, sections, d),
        forall|e: int| index <= e < d ==> #[trigger] directory_has_place(h, sections, e),
        first_directory_layout_error(h, sections, index) == Some(
            PeValidationError::InvalidDataDirectoryRange {
                index: d as usize,
                virtual_address: h.data_directories[d].virtual_address as usize,
                size: h.data_directories[d].size as usize,
                image_size: h.optional_header.size_of_image as usize,
            },
        ),
    decreases directory_count(h) - index,
{
    if directory_has_place(h, sections, index) {
        lemma_misplaced_directory(h, sections, index + 1)
    } else {
        index
    }
}

/// An image whose headers and layout are accepted is refused only where it exceeds the data, or for
/// the first directory that has no place.
pub proof fn law_image_refusals(
    h: NtHeadersView,
    nt_offset: int,
    sections: Seq<SectionHeader>,
    data_size: int,
)
    requires
        h.wf(),
        0 <= data_size <= usize::MAX,
        nt_headers_error(h, nt_offset) is None,
        section_layout_error(h, sections) is None,
        parsed_pe_error(h, nt_offset, sections, data_size) is Some,
    ensures
        match parsed_pe_error(h, nt_offset, sections, data_size)->0 {
            PeValidationError::ImageOutsideData { image_size, data_size: available } => {
                &&& image_size == h.optional_header.size_of_image
                &&& available == data_size
                &&& image_size > available
            },
            PeValidationError::InvalidDataDirectoryRange { index, virtual_address, size, .. } => {
                &&& index < 16
                &&& virtual_address == h.data_directories[index as int].virtual_address
                &&& size == h.data_directories[index as int].size
                &&& !directory_has_place(h, sections, index as int)
                &&& forall|e: int| 0 <= e < index ==> #[trigger] directory_has_place(h, sections, e)
            },
            _ => false,
        },
{
    if h.optional_header.size_of_image <= data_size {
        let d = lemma_misplaced_directory(h, sections, 0);
    }
}

} // verus!
