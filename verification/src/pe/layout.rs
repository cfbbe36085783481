//! Strict validation of the section table, the data directories and the loaded layout.

use vstd::prelude::*;

use super::headers::{
    directory_count, nt_headers_error, parse_error, parse_pe, validate_nt_headers,
    IMAGE_PAGE_SIZE,
};
use super::locate::{
    get_mapped_section_size, image_data_range, is_image_data_range, mapped_end, mapped_size,
    section_contains,
};
use super::types::{
    NtHeaders, NtHeadersView, PeImage, PeValidationError, SectionHeader,
};
use crate::arith::{align_up, checked_align_up, lemma_align_up};
use crate::windows::{
    IMAGE_DIRECTORY_ENTRY_GLOBALPTR, IMAGE_DIRECTORY_ENTRY_SECURITY, IMAGE_SCN_CNT_CODE,
    IMAGE_SCN_MEM_EXECUTE,
};

verus! {

/// The exclusive end of the raw data of a section.
pub open spec fn raw_end(section: SectionHeader) -> int {
    section.pointer_to_raw_data + section.size_of_raw_data
}

/// The exclusive end of what precedes section `index` in memory: the headers or a section.
pub open spec fn previous_end(h: NtHeadersView, sections: Seq<SectionHeader>, index: int) -> int {
    if index <= 0 {
        h.optional_header.size_of_headers as int
    } else {
        mapped_end(sections[index - 1])
    }
}

/// The RVA at which section `index` has to start, and the image to end behind the last section.
pub open spec fn expected_rva(h: NtHeadersView, sections: Seq<SectionHeader>, index: int) -> int {
    align_up(previous_end(h, sections, index), h.optional_header.section_alignment as int)
}

/// The end of the last raw data before section `index`.
pub open spec fn previous_raw_end(sections: Seq<SectionHeader>, index: int) -> Option<int>
    decreases index,
{
    if index <= 0 {
        None
    } else if sections[index - 1].size_of_raw_data != 0 {
        Some(raw_end(sections[index - 1]))
    } else {
        previous_raw_end(sections, index - 1)
    }
}

/// Whether the raw-data metadata of section `index` breaks the format's rules.
pub open spec fn raw_layout_invalid(
    h: NtHeadersView,
    sections: Seq<SectionHeader>,
    index: int,
) -> bool {
    let section = sections[index];
    let file_alignment = h.optional_header.file_alignment as int;
    let raw_size = section.size_of_raw_data as int;
    let raw_pointer = section.pointer_to_raw_data as int;
    ||| file_alignment == 0
    ||| align_up(mapped_size(section), file_alignment) > usize::MAX
    ||| raw_size == 0 && raw_pointer != 0
    ||| raw_size != 0 && {
        ||| raw_size > align_up(mapped_size(section), file_alignment)
        ||| raw_pointer < h.optional_header.size_of_headers
        ||| raw_pointer % file_alignment != 0
        ||| raw_size % file_alignment != 0
        ||| h.optional_header.section_alignment < IMAGE_PAGE_SIZE && raw_pointer
            != section.virtual_address
        ||| raw_end(section) > usize::MAX
        ||| previous_raw_end(sections, index) is Some && raw_pointer < previous_raw_end(
            sections,
            index,
        )->0
    }
}

/// Why section `index` is refused, given that all before it are accepted.
pub open spec fn section_error(h: NtHeadersView, sections: Seq<SectionHeader>, index: int) -> Option<
    PeValidationError,
> {
    let section = sections[index];
    let section_rva = section.virtual_address as int;
    let image_size = h.optional_header.size_of_image as int;
    let range_error = PeValidationError::InvalidSectionRange {
        index: index as usize,
        section_rva: section_rva as usize,
        mapped_size: mapped_size(section) as usize,
        image_size: image_size as usize,
    };
    if section_rva < expected_rva(h, sections, index) {
        Some(
            PeValidationError::OverlappingSections {
                index: index as usize,
                previous_end_rva: previous_end(h, sections, index) as usize,
                section_rva: section_rva as usize,
            },
        )
    } else if section_rva != expected_rva(h, sections, index) {
        Some(
            PeValidationError::InvalidSectionLayout {
                index: index as usize,
                section_rva: section_rva as usize,
            },
        )
    } else if mapped_size(section) == 0 {
        Some(range_error)
    } else if raw_layout_invalid(h, sections, index) {
        Some(
            PeValidationError::InvalidSectionRawLayout {
                index: index as usize,
                raw_size: section.size_of_raw_data as usize,
                raw_pointer: section.pointer_to_raw_data as usize,
                file_alignment: h.optional_header.file_alignment as usize,
            },
        )
    } else if mapped_end(section) > usize::MAX || mapped_end(section) > image_size || expected_rva(
        h,
        sections,
        index + 1,
    ) > usize::MAX {
        Some(range_error)
    } else {
        None
    }
}

/// The first section refused at or after `index`.
pub open spec fn first_section_error(
    h: NtHeadersView,
    sections: Seq<SectionHeader>,
    index: int,
) -> Option<PeValidationError>
    decreases sections.len() - index,
{
    if index >= sections.len() {
        None
    } else if section_error(h, sections, index) is Some {
        section_error(h, sections, index)
    } else {
        first_section_error(h, sections, index + 1)
    }
}

/// Whether `section` is executable.
pub open spec fn executable(section: SectionHeader) -> bool {
    section.characteristics & IMAGE_SCN_MEM_EXECUTE != 0
}

/// Whether one of the first `count` sections is executable and holds `rva`.
pub open spec fn in_executable_section(
    sections: Seq<SectionHeader>,
    count: int,
    rva: int,
) -> bool {
    exists|i: int|
        0 <= i < count && #[trigger] section_contains(sections[i], rva) && executable(sections[i])
}

/// The RVA of the first code section among the first `count`, if there is one.
pub open spec fn first_code_rva(sections: Seq<SectionHeader>, count: int) -> Option<usize>
    decreases count,
{
    if count <= 0 {
        None
    } else if first_code_rva(sections, count - 1) is Some {
        first_code_rva(sections, count - 1)
    } else if sections[count - 1].characteristics & IMAGE_SCN_CNT_CODE != 0 {
        Some(sections[count - 1].virtual_address as usize)
    } else {
        None
    }
}

/// Why the loaded section layout is refused.
pub open spec fn section_layout_error(h: NtHeadersView, sections: Seq<SectionHeader>) -> Option<
    PeValidationError,
> {
    let opt = h.optional_header;
    let entry_point = opt.address_of_entry_point as int;
    let code_rva = match first_code_rva(sections, sections.len() as int) {
        Some(rva) => rva,
        None => 0,
    };
    let image_end = expected_rva(h, sections, sections.len() as int);
    if opt.section_alignment == 0 || expected_rva(h, sections, 0) > usize::MAX {
        Some(PeValidationError::SectionTableRangeOverflow)
    } else if first_section_error(h, sections, 0) is Some {
        first_section_error(h, sections, 0)
    } else if entry_point != 0 && !in_executable_section(
        sections,
        sections.len() as int,
        entry_point,
    ) {
        Some(
            PeValidationError::InvalidEntryPoint {
                entry_point_rva: entry_point as usize,
                image_size: opt.size_of_image as usize,
            },
        )
    } else if opt.base_of_code != code_rva {
        Some(
            PeValidationError::InvalidBaseOfCode {
                base_of_code_rva: opt.base_of_code as usize,
                expected_base_of_code_rva: code_rva,
            },
        )
    } else if image_end != opt.size_of_image {
        Some(
            PeValidationError::InvalidFinalImageSize {
                expected_image_size: image_end as usize,
                actual_image_size: opt.size_of_image as usize,
            },
        )
    } else {
        None
    }
}

/// Reports whether the raw-data metadata of one section breaks the format's rules.
fn is_raw_layout_invalid(
    nt_headers: &NtHeaders,
    sections: &[SectionHeader],
    index: usize,
    last_raw_end: Option<usize>,
) -> (r: bool)
    requires
        index < sections@.len(),
        match previous_raw_end(sections@, index as int) {
            Some(end) => last_raw_end is Some && last_raw_end->0 == end,
            None => last_raw_end is None,
        },
    ensures
        r == raw_layout_invalid(nt_headers@, sections@, index as int),
{
    let section = &sections[index];
    let file_alignment: usize = nt_headers.optional_header.file_alignment as usize;
    let section_alignment: usize = nt_headers.optional_header.section_alignment as usize;
    let raw_size: usize = section.size_of_raw_data as usize;
    let raw_pointer: usize = section.pointer_to_raw_data as usize;
    let maximum_raw_size: usize = match checked_align_up(
        get_mapped_section_size(section),
        file_alignment,
    ) {
        Some(value) => value,
        None => return true,
    };
    if raw_size == 0 {
        return raw_pointer != 0;
    }
    if raw_size > maximum_raw_size || raw_pointer < nt_headers.optional_header.size_of_headers as usize
        || raw_pointer % file_alignment != 0 || raw_size % file_alignment != 0 || (
    section_alignment < IMAGE_PAGE_SIZE && raw_pointer != section.virtual_address as usize) {
        return true;
    }
    if raw_pointer.checked_add(raw_size).is_none() {
        return true;
    }
    match last_raw_end {
        Some(end) => raw_pointer < end,
        None => false,
    }
}

/// Validates section ordering, alignment, ranges, overlap, and entry-point containment.
pub fn validate_section_layout(nt_headers: &NtHeaders, sections: &[SectionHeader]) -> (r: Result<
    (),
    PeValidationError,
>)
    ensures
        match r {
            Ok(()) => section_layout_error(nt_headers@, sections@) is None,
            Err(e) => section_layout_error(nt_headers@, sections@) == Some(e),
        },
{
    let ghost h = nt_headers@;
    let image_size: usize = nt_headers.optional_header.size_of_image as usize;
    let size_of_headers: usize = nt_headers.optional_header.size_of_headers as usize;
    let section_alignment: usize = nt_headers.optional_header.section_alignment as usize;
    let file_alignment: usize = nt_headers.optional_header.file_alignment as usize;
    let entry_point_rva: usize = nt_headers.optional_header.address_of_entry_point as usize;
    let base_of_code_rva: usize = nt_headers.optional_header.base_of_code as usize;
    let mut previous_end_rva: usize = size_of_headers;
    let mut last_raw_end: Option<usize> = None;
    let mut entry_point_is_executable: bool = false;
    let mut first_code_section_rva: Option<usize> = None;
    let mut expected_section_rva: usize = match checked_align_up(
        size_of_headers,
        section_alignment,
    ) {
        Some(value) => value,
        None => return Err(PeValidationError::SectionTableRangeOverflow),
    };
    let mut index: usize = 0;
    while index < sections.len()
        invariant
            h == nt_headers@,
            image_size == h.optional_header.size_of_image,
            size_of_headers == h.optional_header.size_of_headers,
            section_alignment == h.optional_header.section_alignment,
            section_alignment != 0,
            file_alignment == h.optional_header.file_alignment,
            entry_point_rva == h.optional_header.address_of_entry_point,
            index <= sections@.len(),
            expected_rva(h, sections@, 0) <= usize::MAX,
            first_section_error(h, sections@, 0) == first_section_error(
                h,
                sections@,
                index as int,
            ),
            first_section_error(h, sections@, 0) is Some ==> section_layout_error(h, sections@)
                == first_section_error(h, sections@, 0),
            previous_end_rva == previous_end(h, sections@, index as int),
            expected_section_rva == expected_rva(h, sections@, index as int),
            match previous_raw_end(sections@, index as int) {
                Some(end) => last_raw_end is Some && last_raw_end->0 == end,
                None => last_raw_end is None,
            },
            entry_point_is_executable == in_executable_section(
                sections@,
                index as int,
                entry_point_rva as int,
            ),
            first_code_section_rva == first_code_rva(sections@, index as int),
        decreases sections.len() - index,
    {
        let section = &sections[index];
        let section_rva: usize = section.virtual_address as usize;
        if section_rva < expected_section_rva {
            return Err(
                PeValidationError::OverlappingSections { index, previous_end_rva, section_rva },
            );
        }
        if section_rva != expected_section_rva {
            return Err(PeValidationError::InvalidSectionLayout { index, section_rva });
        }
        let mapped_size: usize = get_mapped_section_size(section);
        if mapped_size == 0 {
            return Err(
                PeValidationError::InvalidSectionRange {
                    index,
                    section_rva,
                    mapped_size,
                    image_size,
                },
            );
        }
        let raw_size: usize = section.size_of_raw_data as usize;
        let raw_pointer: usize = section.pointer_to_raw_data as usize;
        if is_raw_layout_invalid(nt_headers, sections, index, last_raw_end) {
            return Err(
                PeValidationError::InvalidSectionRawLayout {
                    index,
                    raw_size,
                    raw_pointer,
                    file_alignment,
                },
            );
        }
        if raw_size != 0 {
            last_raw_end = Some(raw_pointer + raw_size);
        }
        if first_code_section_rva.is_none() && section.characteristics & IMAGE_SCN_CNT_CODE != 0 {
            first_code_section_rva = Some(section_rva);
        }
        let end_rva: usize = match section_rva.checked_add(mapped_size) {
            Some(value) => value,
            None => return Err(
                PeValidationError::InvalidSectionRange {
                    index,
                    section_rva,
                    mapped_size,
                    image_size,
                },
            ),
        };
        if end_rva > image_size {
            return Err(
                PeValidationError::InvalidSectionRange {
                    index,
                    section_rva,
                    mapped_size,
                    image_size,
                },
            );
        }
        let ghost was_executable = entry_point_is_executable;
        if entry_point_rva >= section_rva && entry_point_rva < end_rva && section.characteristics
            & IMAGE_SCN_MEM_EXECUTE != 0 {
            entry_point_is_executable = true;
            assert(section_contains(sections@[index as int], entry_point_rva as int));
        }
        assert(entry_point_is_executable == in_executable_section(
            sections@,
            index + 1,
            entry_point_rva as int,
        )) by {
            if was_executable {
                let i = choose|i: int|
                    0 <= i < index && #[trigger] section_contains(
                        sections@[i],
                        entry_point_rva as int,
                    ) && executable(sections@[i]);
                assert(section_contains(sections@[i], entry_point_rva as int));
            }
            if in_executable_section(sections@, index + 1, entry_point_rva as int) {
                let i = choose|i: int|
                    0 <= i < index + 1 && #[trigger] section_contains(
                        sections@[i],
                        entry_point_rva as int,
                    ) && executable(sections@[i]);
                if i < index {
                    assert(was_executable);
                }
            }
        }
        previous_end_rva = end_rva;
        expected_section_rva =
        match checked_align_up(end_rva, section_alignment) {
            Some(value) => value,
            None => return Err(
                PeValidationError::InvalidSectionRange {
                    index,
                    section_rva,
                    mapped_size,
                    image_size,
                },
            ),
        };
        index += 1;
    }
    if entry_point_rva != 0 && !entry_point_is_executable {
        return Err(PeValidationError::InvalidEntryPoint { entry_point_rva, image_size });
    }
    let expected_base_of_code_rva: usize = match first_code_section_rva {
        Some(rva) => rva,
        None => 0,
    };
    if base_of_code_rva != expected_base_of_code_rva {
        return Err(
            PeValidationError::InvalidBaseOfCode { base_of_code_rva, expected_base_of_code_rva },
        );
    }
    if expected_section_rva != image_size {
        return Err(
            PeValidationError::InvalidFinalImageSize {
                expected_image_size: expected_section_rva,
                actual_image_size: image_size,
            },
        );
    }
    Ok(())
}

/// Why declared data directory `index` does not occupy mapped headers or section data.
pub open spec fn directory_layout_error(
    h: NtHeadersView,
    sections: Seq<SectionHeader>,
    index: int,
) -> Option<PeValidationError> {
    let address = h.data_directories[index].virtual_address;
    let size = h.data_directories[index].size;
    let required = if index == IMAGE_DIRECTORY_ENTRY_GLOBALPTR {
        1
    } else {
        size as int
    };
    if (address == 0 && size == 0) || index == IMAGE_DIRECTORY_ENTRY_SECURITY || image_data_range(
        h,
        sections,
        address as int,
        required,
    ) {
        None
    } else {
        Some(
            PeValidationError::InvalidDataDirectoryRange {
                index: index as usize,
                virtual_address: address as usize,
                size: size as usize,
                image_size: h.optional_header.size_of_image as usize,
            },
        )
    }
}

/// The first data directory at or after `index` that does not occupy mapped data.
pub open spec fn first_directory_layout_error(
    h: NtHeadersView,
    sections: Seq<SectionHeader>,
    index: int,
) -> Option<PeValidationError>
    decreases directory_count(h) - index,
{
    if index >= directory_count(h) {
        None
    } else if directory_layout_error(h, sections, index) is Some {
        directory_layout_error(h, sections, index)
    } else {
        first_directory_layout_error(h, sections, index + 1)
    }
}

/// Validates that every mapped data directory occupies actual headers or section data.
pub fn validate_data_directory_layout(
    nt_headers: &NtHeaders,
    sections: &[SectionHeader],
) -> (r: Result<(), PeValidationError>)
    ensures
        match r {
            Ok(()) => first_directory_layout_error(nt_headers@, sections@, 0) is None,
            Err(e) => first_directory_layout_error(nt_headers@, sections@, 0) == Some(e),
        },
{
    let mut index: usize = 0;
    while index < nt_headers.data_directories.len() && index
        < nt_headers.optional_header.number_of_rva_and_sizes as usize
        invariant
            index <= directory_count(nt_headers@),
            first_directory_layout_error(nt_headers@, sections@, 0)
                == first_directory_layout_error(nt_headers@, sections@, index as int),
        decreases nt_headers.data_directories.len() - index,
    {
        let virtual_address: usize = nt_headers.data_directories[index].virtual_address as usize;
        let size: usize = nt_headers.data_directories[index].size as usize;
        let skipped: bool = (virtual_address == 0 && size == 0) || index
            == IMAGE_DIRECTORY_ENTRY_SECURITY;
        let required_size: usize = if index == IMAGE_DIRECTORY_ENTRY_GLOBALPTR {
            1
        } else {
            size
        };
        if !skipped && !is_image_data_range(nt_headers, sections, virtual_address, required_size) {
            return Err(
                PeValidationError::InvalidDataDirectoryRange {
                    index,
                    virtual_address,
                    size,
                    image_size: nt_headers.optional_header.size_of_image as usize,
                },
            );
        }
        index += 1;
    }
    Ok(())
}

/// Why a parsed image is refused as a mapped image of `data_size` bytes.
pub open spec fn parsed_pe_error(
    h: NtHeadersView,
    nt_offset: int,
    sections: Seq<SectionHeader>,
    data_size: int,
) -> Option<PeValidationError> {
    if nt_headers_error(h, nt_offset) is Some {
        nt_headers_error(h, nt_offset)
    } else if h.optional_header.size_of_image > data_size {
        Some(
            PeValidationError::ImageOutsideData {
                image_size: h.optional_header.size_of_image as usize,
                data_size: data_size as usize,
            },
        )
    } else if section_layout_error(h, sections) is Some {
        section_layout_error(h, sections)
    } else {
        first_directory_layout_error(h, sections, 0)
    }
}

impl PeImage {
    /// Why this image is refused as a mapped image of `data_size` bytes.
    pub open spec fn error_in(&self, data_size: int) -> Option<PeValidationError> {
        parsed_pe_error(
            self.nt_headers@,
            self.nt_headers_offset as int,
            self.sections@,
            data_size,
        )
    }
}

/// Strictly validates an already parsed mapped PE image.
pub fn validate_parsed_pe(pe: &PeImage, data_size: usize) -> (r: Result<(), PeValidationError>)
    requires
        pe.wf(),
    ensures
        match r {
            Ok(()) => pe.error_in(data_size as int) is None,
            Err(e) => pe.error_in(data_size as int) == Some(e),
        },
{
    let validated_headers = match validate_nt_headers(&pe.nt_headers, pe.nt_headers_offset) {
        Ok(value) => value,
        Err(e) => return Err(e),
    };
    if validated_headers.image_size > data_size {
        return Err(
            PeValidationError::ImageOutsideData {
                image_size: validated_headers.image_size,
                data_size,
            },
        );
    }
    match validate_section_layout(&pe.nt_headers, &pe.sections) {
        Ok(()) => {},
        Err(e) => return Err(e),
    }
    validate_data_directory_layout(&pe.nt_headers, &pe.sections)
}

/// What strict validation of `bytes` may return: the parsed image when it is accepted, the parse
/// error, the error of the parsed image, or a refused reservation of the section buffer.
pub open spec fn validate_outcome(bytes: Seq<u8>, r: Result<PeImage, PeValidationError>) -> bool {
    match r {
        Ok(pe) => {
            &&& parse_error(bytes) is None
            &&& pe.parsed_from(bytes)
            &&& pe.wf()
            &&& pe.error_in(bytes.len() as int) is None
        },
        Err(e) => {
            ||| super::headers::parse_outcome(bytes, Err::<PeImage, _>(e))
            ||| parse_error(bytes) is None && exists|pe: PeImage| #[trigger]
                pe.parsed_from(bytes) && pe.error_in(bytes.len() as int) == Some(e)
        },
    }
}

/// Strictly validates a complete mapped x64 PE image.
pub fn validate_pe(pe_data: &[u8]) -> (r: Result<PeImage, PeValidationError>)
    ensures
        validate_outcome(pe_data@, r),
{
    let pe = match parse_pe(pe_data) {
        Ok(value) => value,
        Err(e) => return Err(e),
    };
    match validate_parsed_pe(&pe, pe_data.len()) {
        Ok(()) => Ok(pe),
        Err(e) => {
            assert(pe.parsed_from(pe_data@) && pe.error_in(pe_data@.len() as int) == Some(e));
            Err(e)
        },
    }
}

/// No section before `count` is refused when the first refusal is not among them.
proof fn lemma_no_section_error(h: NtHeadersView, sections: Seq<SectionHeader>, from: int, i: int)
    requires
        0 <= from <= i < sections.len(),
        first_section_error(h, sections, from) is None,
    ensures
        section_error(h, sections, i) is None,
    decreases i - from,
{
    if from < i {
        lemma_no_section_error(h, sections, from + 1, i);
    }
}

/// In an accepted layout every section is not empty, starts at an aligned RVA, lies inside the
/// image and behind the headers, and ends before every later section starts: no two sections
/// overlap.
pub proof fn law_accepted_sections_are_ordered(h: NtHeadersView, sections: Seq<SectionHeader>)
    requires
        section_layout_error(h, sections) is None,
    ensures
        forall|i: int|
            0 <= i < sections.len() ==> {
                let section = #[trigger] sections[i];
                &&& mapped_size(section) > 0
                &&& section.virtual_address as int % h.optional_header.section_alignment as int == 0
                &&& h.optional_header.size_of_headers <= section.virtual_address
                &&& mapped_end(section) <= h.optional_header.size_of_image
            },
        forall|i: int, j: int|
            0 <= i < j < sections.len() ==> mapped_end(#[trigger] sections[i])
                <= (#[trigger] sections[j]).virtual_address,
{
    let alignment = h.optional_header.section_alignment as int;
    assert forall|i: int| 0 <= i < sections.len() implies ({
        let section = #[trigger] sections[i];
        &&& mapped_size(section) > 0
        &&& section.virtual_address as int % alignment == 0
        &&& previous_end(h, sections, i) <= section.virtual_address
        &&& mapped_end(section) <= h.optional_header.size_of_image
    }) by {
        lemma_no_section_error(h, sections, 0, i);
        lemma_align_up(previous_end(h, sections, i), alignment);
    }
    assert forall|i: int, j: int| 0 <= i < j < sections.len() implies mapped_end(
        #[trigger] sections[i],
    ) <= (#[trigger] sections[j]).virtual_address by {
        lemma_ordered(h, sections, i, j);
    }
    assert forall|i: int| 0 <= i < sections.len() implies h.optional_header.size_of_headers
        <= (#[trigger] sections[i]).virtual_address by {
        if i > 0 {
            lemma_ordered(h, sections, 0, i);
            assert(sections[0].virtual_address >= previous_end(h, sections, 0));
        }
    }
}

/// Two accepted sections do not overlap.
proof fn lemma_ordered(h: NtHeadersView, sections: Seq<SectionHeader>, i: int, j: int)
    requires
        section_layout_error(h, sections) is None,
        0 <= i < j < sections.len(),
    ensures
        mapped_end(sections[i]) <= sections[j].virtual_address,
    decreases j - i,
{
    lemma_no_section_error(h, sections, 0, j);
    lemma_align_up(previous_end(h, sections, j), h.optional_header.section_alignment as int);
    if i < j - 1 {
        lemma_ordered(h, sections, i, j - 1);
        lemma_no_section_error(h, sections, 0, j - 1);
    }
}

/// In an accepted layout a nonzero entry point lies in an executable section.
pub proof fn law_accepted_entry_point_is_executable(h: NtHeadersView, sections: Seq<SectionHeader>)
    requires
        section_layout_error(h, sections) is None,
        h.optional_header.address_of_entry_point != 0,
    ensures
        in_executable_section(
            sections,
            sections.len() as int,
            h.optional_header.address_of_entry_point as int,
        ),
{
}

/// The last raw data before section `j` ends behind the raw data of every earlier section.
proof fn lemma_previous_raw_end(h: NtHeadersView, sections: Seq<SectionHeader>, i: int, j: int)
    requires
        section_layout_error(h, sections) is None,
        0 <= i < j <= sections.len(),
        sections[i].size_of_raw_data != 0,
    ensures
        previous_raw_end(sections, j) is Some,
        raw_end(sections[i]) <= previous_raw_end(sections, j)->0,
    decreases j - i,
{
    if i < j - 1 {
        lemma_previous_raw_end(h, sections, i, j - 1);
        lemma_no_section_error(h, sections, 0, j - 1);
    }
}

/// In an accepted layout the raw data of a section ends before that of every later section
/// starts.
pub proof fn law_accepted_raw_data_is_ordered(
    h: NtHeadersView,
    sections: Seq<SectionHeader>,
    i: int,
    j: int,
)
    requires
        section_layout_error(h, sections) is None,
        0 <= i < j < sections.len(),
        sections[i].size_of_raw_data != 0,
        sections[j].size_of_raw_data != 0,
    ensures
        raw_end(sections[i]) <= sections[j].pointer_to_raw_data,
{
    lemma_previous_raw_end(h, sections, i, j);
    lemma_no_section_error(h, sections, 0, j);
}

/// Of an accepted image, every declared data directory that is not empty, other than the
/// certificate table, lies in mapped data: its whole range, or its first byte for a global
/// pointer.
pub proof fn law_accepted_directories_are_mapped(
    h: NtHeadersView,
    sections: Seq<SectionHeader>,
    from: int,
    index: int,
)
    requires
        0 <= from <= index < directory_count(h),
        first_directory_layout_error(h, sections, from) is None,
        index != IMAGE_DIRECTORY_ENTRY_SECURITY,
        h.data_directories[index].virtual_address != 0 || h.data_directories[index].size != 0,
    ensures
        image_data_range(
            h,
            sections,
            h.data_directories[index].virtual_address as int,
            if index == IMAGE_DIRECTORY_ENTRY_GLOBALPTR {
                1
            } else {
                h.data_directories[index].size as int
            },
        ),
    decreases index - from,
{
    if from < index {
        law_accepted_directories_are_mapped(h, sections, from + 1, index);
    }
}

} // verus!
