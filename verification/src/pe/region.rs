//! Classification of the virtual-memory regions that a loaded image spans.

use vstd::prelude::*;

use super::layout::section_layout_error;
use super::locate::{get_mapped_section_size, mapped_end, section_contains};
use super::types::{NtHeadersView, PeValidationError, SectionHeader};
use crate::arith::{align_up, checked_align_up, lemma_align_up, lemma_align_up_least, min_usize};
use crate::memory::{MemoryRegion, MemoryRegionType};
use crate::windows::{
    IMAGE_SCN_MEM_DISCARDABLE, MEM_COMMIT, MEM_RESERVE, PAGE_BASE_PROTECTION_MASK, PAGE_EXECUTE,
    PAGE_GUARD, PAGE_NOACCESS,
};

verus! {

/// Classifies whether one valid image region carries readable, absent, or inaccessible bytes.
#[derive(Clone, Copy, Debug, Eq, PartialEq, Structural)]
pub enum ImageRegionDisposition {
    Readable,
    Padding,
    Discarded,
    Unreadable,
}

/// Whether the loader may discard `section` after mapping.
pub open spec fn discardable(section: SectionHeader) -> bool {
    section.characteristics & IMAGE_SCN_MEM_DISCARDABLE != 0
}

/// Carries an unavailable range on from `covered` to `end` over the sections from `index` on:
/// discardable section data counts as discarded, the alignment slack behind a section as padding.
/// Anything else that the range would have to pass leaves it unclassified.
pub open spec fn classify_over_sections(
    sections: Seq<SectionHeader>,
    index: int,
    covered: int,
    discarded: bool,
    end: int,
    section_alignment: int,
) -> Option<ImageRegionDisposition>
    decreases sections.len() - index,
{
    if index >= sections.len() {
        None
    } else {
        let section = sections[index];
        let data_end = mapped_end(section);
        let slot_end = align_up(data_end, section_alignment);
        if data_end > usize::MAX || section_alignment == 0 || slot_end > usize::MAX {
            None
        } else {
            let takes = discardable(section) && section_contains(section, covered);
            let data_covered = if takes {
                data_end
            } else {
                covered
            };
            let any = discarded || takes;
            if takes && end <= data_end {
                Some(ImageRegionDisposition::Discarded)
            } else if data_end <= data_covered < slot_end {
                if end <= slot_end {
                    if any {
                        Some(ImageRegionDisposition::Discarded)
                    } else {
                        Some(ImageRegionDisposition::Padding)
                    }
                } else {
                    classify_over_sections(
                        sections,
                        index + 1,
                        slot_end,
                        any,
                        end,
                        section_alignment,
                    )
                }
            } else {
                classify_over_sections(
                    sections,
                    index + 1,
                    data_covered,
                    any,
                    end,
                    section_alignment,
                )
            }
        }
    }
}

/// How an unavailable range `[start, end)` is classified, if no byte of it is required.
pub open spec fn unavailable_disposition(
    start: int,
    end: int,
    size_of_headers: int,
    section_alignment: int,
    sections: Seq<SectionHeader>,
) -> Option<ImageRegionDisposition> {
    if start >= end {
        None
    } else if sections.len() > 0 && size_of_headers <= start < sections[0].virtual_address {
        if end <= sections[0].virtual_address {
            Some(ImageRegionDisposition::Padding)
        } else {
            classify_over_sections(
                sections,
                0,
                sections[0].virtual_address as int,
                false,
                end,
                section_alignment,
            )
        }
    } else {
        classify_over_sections(sections, 0, start, false, end, section_alignment)
    }
}

/// Classifies an unavailable RVA range as loader padding or discarded section data.
pub fn classify_unavailable_image_range(
    range_start_rva: usize,
    range_end_rva: usize,
    size_of_headers: usize,
    section_alignment: usize,
    sections: &[SectionHeader],
) -> (r: Option<ImageRegionDisposition>)
    ensures
        r == unavailable_disposition(
            range_start_rva as int,
            range_end_rva as int,
            size_of_headers as int,
            section_alignment as int,
            sections@,
        ),
{
    if range_start_rva >= range_end_rva {
        return None;
    }
    let mut covered_end_rva: usize = range_start_rva;
    let mut includes_discarded_data: bool = false;
    if sections.len() > 0 {
        let first_section_rva: usize = sections[0].virtual_address as usize;
        if covered_end_rva >= size_of_headers && covered_end_rva < first_section_rva {
            covered_end_rva = min_usize(first_section_rva, range_end_rva);
            if covered_end_rva == range_end_rva {
                return Some(ImageRegionDisposition::Padding);
            }
        }
    }
    let ghost expected = unavailable_disposition(
        range_start_rva as int,
        range_end_rva as int,
        size_of_headers as int,
        section_alignment as int,
        sections@,
    );
    let mut index: usize = 0;
    while index < sections.len()
        invariant
            index <= sections@.len(),
            covered_end_rva < range_end_rva,
            expected == unavailable_disposition(
                range_start_rva as int,
                range_end_rva as int,
                size_of_headers as int,
                section_alignment as int,
                sections@,
            ),
            expected == classify_over_sections(
                sections@,
                index as int,
                covered_end_rva as int,
                includes_discarded_data,
                range_end_rva as int,
                section_alignment as int,
            ),
        decreases sections.len() - index,
    {
        let section = &sections[index];
        let section_start_rva: usize = section.virtual_address as usize;
        let mapped_end_rva: usize = match section_start_rva.checked_add(
            get_mapped_section_size(section),
        ) {
            Some(value) => value,
            None => return None,
        };
        let section_slot_end_rva: usize = match checked_align_up(
            mapped_end_rva,
            section_alignment,
        ) {
            Some(value) => value,
            None => return None,
        };
        if section.characteristics & IMAGE_SCN_MEM_DISCARDABLE != 0 && covered_end_rva
            >= section_start_rva && covered_end_rva < mapped_end_rva {
            covered_end_rva = min_usize(mapped_end_rva, range_end_rva);
            includes_discarded_data = true;
            if covered_end_rva == range_end_rva {
                return Some(ImageRegionDisposition::Discarded);
            }
        }
        if covered_end_rva >= mapped_end_rva && covered_end_rva < section_slot_end_rva {
            covered_end_rva = min_usize(section_slot_end_rva, range_end_rva);
            if covered_end_rva == range_end_rva {
                if includes_discarded_data {
                    return Some(ImageRegionDisposition::Discarded);
                }
                return Some(ImageRegionDisposition::Padding);
            }
        }
        index += 1;
    }
    None
}

/// What one queried image range gives: its disposition, or why it cannot belong to the image.
pub open spec fn image_region_result(
    region: MemoryRegion,
    range_start: int,
    range_end: int,
    image_base: int,
    size_of_headers: int,
    section_alignment: int,
    sections: Seq<SectionHeader>,
) -> Result<ImageRegionDisposition, PeValidationError> {
    let refused = Err(
        PeValidationError::InvalidImageRegion {
            address: range_start as usize,
            allocation_base: region.allocation_base,
            state: region.state,
            region_type: region.region_type,
        },
    );
    let unavailable = unavailable_disposition(
        range_start - image_base,
        range_end - image_base,
        size_of_headers,
        section_alignment,
        sections,
    );
    let protection = region.protect & PAGE_BASE_PROTECTION_MASK;
    if range_start < image_base || range_end <= range_start || region.allocation_base
        != image_base {
        refused
    } else if region.state == MEM_RESERVE {
        match unavailable {
            Some(disposition) => Ok(disposition),
            None => refused,
        }
    } else if region.state != MEM_COMMIT || region.region_type != MemoryRegionType::Image {
        refused
    } else if region.protect & PAGE_GUARD != 0 || protection == PAGE_NOACCESS || protection
        == PAGE_EXECUTE {
        if unavailable == Some(ImageRegionDisposition::Padding) {
            Ok(ImageRegionDisposition::Padding)
        } else {
            Ok(ImageRegionDisposition::Unreadable)
        }
    } else {
        Ok(ImageRegionDisposition::Readable)
    }
}

/// Validates one queried image range and classifies its snapshot availability.
pub fn validate_image_region(
    region: &MemoryRegion,
    range_start: usize,
    range_end: usize,
    image_base_address: usize,
    size_of_headers: usize,
    section_alignment: usize,
    sections: &[SectionHeader],
) -> (r: Result<ImageRegionDisposition, PeValidationError>)
    ensures
        r == image_region_result(
            *region,
            range_start as int,
            range_end as int,
            image_base_address as int,
            size_of_headers as int,
            section_alignment as int,
            sections@,
        ),
{
    let refused: Result<ImageRegionDisposition, PeValidationError> = Err(
        PeValidationError::InvalidImageRegion {
            address: range_start,
            allocation_base: region.allocation_base,
            state: region.state,
            region_type: region.region_type,
        },
    );
    if range_start < image_base_address || range_end <= range_start || region.allocation_base
        != image_base_address {
        return refused;
    }
    let start_rva: usize = range_start - image_base_address;
    let end_rva: usize = range_end - image_base_address;
    if region.state == MEM_RESERVE {
        return match classify_unavailable_image_range(
            start_rva,
            end_rva,
            size_of_headers,
            section_alignment,
            sections,
        ) {
            Some(disposition) => Ok(disposition),
            None => refused,
        };
    }
    if region.state != MEM_COMMIT || region.region_type != MemoryRegionType::Image {
        return refused;
    }
    let base_protection: u32 = region.protect & PAGE_BASE_PROTECTION_MASK;
    if region.protect & PAGE_GUARD != 0 || base_protection == PAGE_NOACCESS || base_protection
        == PAGE_EXECUTE {
        return match classify_unavailable_image_range(
            start_rva,
            end_rva,
            size_of_headers,
            section_alignment,
            sections,
        ) {
            Some(ImageRegionDisposition::Padding) => Ok(ImageRegionDisposition::Padding),
            _ => Ok(ImageRegionDisposition::Unreadable),
        };
    }
    Ok(ImageRegionDisposition::Readable)
}

/// Whether `rva` is a byte that an unavailable range of kind `disposition` may hold: no byte of
/// the headers, only discardable section data, and none at all in padding.
pub open spec fn may_be_unavailable(
    h: NtHeadersView,
    sections: Seq<SectionHeader>,
    disposition: ImageRegionDisposition,
    rva: int,
) -> bool {
    &&& rva >= h.optional_header.size_of_headers
    &&& forall|i: int|
        0 <= i < sections.len() && section_contains(#[trigger] sections[i], rva)
            ==> discardable(sections[i]) && disposition == ImageRegionDisposition::Discarded
}

/// A classified walk passes only bytes that may be unavailable.
proof fn lemma_classified_walk(
    h: NtHeadersView,
    sections: Seq<SectionHeader>,
    index: int,
    covered: int,
    discarded: bool,
    end: int,
    rva: int,
)
    requires
        section_layout_error(h, sections) is None,
        0 <= index <= sections.len(),
        covered <= rva < end,
        index > 0 ==> mapped_end(sections[index - 1]) <= covered,
        classify_over_sections(
            sections,
            index,
            covered,
            discarded,
            end,
            h.optional_header.section_alignment as int,
        ) is Some,
    ensures
        may_be_unavailable(
            h,
            sections,
            classify_over_sections(
                sections,
                index,
                covered,
                discarded,
                end,
                h.optional_header.section_alignment as int,
            )->0,
            rva,
        ),
        discarded ==> classify_over_sections(
            sections,
            index,
            covered,
            discarded,
            end,
            h.optional_header.section_alignment as int,
        ) == Some(ImageRegionDisposition::Discarded),
    decreases sections.len() - index,
{
    // A walk that leaves a section's start behind without covering it never ends in a result.
    let alignment = h.optional_header.section_alignment as int;
    super::layout::law_accepted_sections_are_ordered(h, sections);
    let section = sections[index];
    let data_end = mapped_end(section);
    let slot_end = align_up(data_end, alignment);
    lemma_align_up(data_end, alignment);
    let takes = discardable(section) && section_contains(section, covered);
    let any = discarded || takes;
    let data_covered = if takes {
        data_end
    } else {
        covered
    };
    let result = classify_over_sections(sections, index, covered, discarded, end, alignment);
    // Sections behind this one start at or after the end of its slot.
    assert forall|j: int| index < j < sections.len() implies slot_end <= (
    #[trigger] sections[j]).virtual_address by {
        assert(sections[j].virtual_address as int % alignment == 0);
        lemma_align_up_least(data_end, alignment, sections[j].virtual_address as int);
    }
    if !takes && !(data_end <= covered < slot_end) {
        if covered < data_end {
            lemma_stuck_walk(h, sections, index + 1, covered, any, end);
            assert(false);
        }
        lemma_classified_walk(h, sections, index + 1, covered, any, end, rva);
    } else {
        if takes && end <= data_end {
            assert forall|i: int|
                0 <= i < sections.len() && section_contains(#[trigger] sections[i], rva) implies i
                == index by {
                if i < index {
                    assert(mapped_end(sections[i]) <= sections[index].virtual_address);
                }
            }
        } else {
            // The data is covered up to its end; the slack behind it follows.
            if data_end < slot_end {
                if end > slot_end {
                    if rva >= slot_end {
                        lemma_classified_walk(h, sections, index + 1, slot_end, any, end, rva);
                    } else {
                        lemma_classified_walk(
                            h,
                            sections,
                            index + 1,
                            slot_end,
                            any,
                            end,
                            slot_end,
                        );
                    }
                }
            } else {
                if rva >= data_end {
                    lemma_classified_walk(h, sections, index + 1, data_end, any, end, rva);
                } else {
                    lemma_classified_walk(h, sections, index + 1, data_end, any, end, data_end);
                }
            }
            if rva < slot_end {
                assert forall|i: int|
                    0 <= i < sections.len() && section_contains(
                        #[trigger] sections[i],
                        rva,
                    ) implies i == index && takes by {
                    if i < index {
                        assert(mapped_end(sections[i]) <= sections[index].virtual_address);
                        if !takes {
                            assert(data_end <= covered);
                        }
                    }
                }
            }
        }
    }
}

/// A walk whose covered end lies before every remaining section never gets a result.
proof fn lemma_stuck_walk(
    h: NtHeadersView,
    sections: Seq<SectionHeader>,
    index: int,
    covered: int,
    discarded: bool,
    end: int,
)
    requires
        section_layout_error(h, sections) is None,
        0 <= index <= sections.len(),
        forall|j: int|
            index <= j < sections.len() ==> covered < (#[trigger] sections[j]).virtual_address,
    ensures
        classify_over_sections(
            sections,
            index,
            covered,
            discarded,
            end,
            h.optional_header.section_alignment as int,
        ) is None,
    decreases sections.len() - index,
{
    if index < sections.len() {
        lemma_stuck_walk(h, sections, index + 1, covered, discarded, end);
    }
}

/// In an accepted layout, a range is classified as unavailable only when none of its bytes is
/// required: it holds no header byte, section data in it is discardable, and padding holds no
/// section data at all.
pub proof fn law_unavailable_bytes_are_not_required(
    h: NtHeadersView,
    sections: Seq<SectionHeader>,
    start: int,
    end: int,
)
    requires
        section_layout_error(h, sections) is None,
        0 <= start,
        unavailable_disposition(
            start,
            end,
            h.optional_header.size_of_headers as int,
            h.optional_header.section_alignment as int,
            sections,
        ) is Some,
    ensures
        forall|rva: int|
            start <= rva < end ==> #[trigger] may_be_unavailable(
                h,
                sections,
                unavailable_disposition(
                    start,
                    end,
                    h.optional_header.size_of_headers as int,
                    h.optional_header.section_alignment as int,
                    sections,
                )->0,
                rva,
            ),
{
    super::layout::law_accepted_sections_are_ordered(h, sections);
    let headers = h.optional_header.size_of_headers as int;
    let alignment = h.optional_header.section_alignment as int;
    let disposition = unavailable_disposition(start, end, headers, alignment, sections)->0;
    assert forall|rva: int| start <= rva < end implies #[trigger] may_be_unavailable(
        h,
        sections,
        disposition,
        rva,
    ) by {
        if sections.len() > 0 {
            let first = sections[0].virtual_address as int;
            if headers <= start < first {
                if rva < first {
                    assert forall|i: int| 0 <= i < sections.len() implies !section_contains(
                        #[trigger] sections[i],
                        rva,
                    ) by {
                        if i > 0 {
                            assert(mapped_end(sections[0]) <= sections[i].virtual_address);
                        }
                    }
                } else {
                    lemma_classified_walk(h, sections, 0, first, false, end, rva);
                }
            } else {
                if start < first {
                    assert forall|j: int| 0 <= j < sections.len() implies start < (
                    #[trigger] sections[j]).virtual_address by {
                        if j > 0 {
                            assert(mapped_end(sections[0]) <= sections[j].virtual_address);
                        }
                    }
                    lemma_stuck_walk(h, sections, 0, start, false, end);
                }
                lemma_classified_walk(h, sections, 0, start, false, end, rva);
            }
        }
    }
}

} // verus!
