//! Regions of a loaded image and the ranges that a copy of it misses.

use vstd::prelude::*;

use crate::arith::align_up;
use crate::laws::image::{begins_behind, lemma_begins_behind};
use crate::laws::locate::section_end;
use crate::memory::{region_type_of, MemoryRegion, MemoryRegionType};
use crate::pe::region::{
    classify_over_sections, image_region_result, unavailable_disposition, ImageRegionDisposition,
};
use crate::pe::snapshot::{overwritten, with_discarded};
use crate::pe::types::{SectionHeader, UnavailablePeRange};

verus! {

/// Whether sections fill an image from `first` on: each has bytes and begins at the first aligned
/// RVA behind the one before it, and the image ends at the first aligned RVA behind the last.
pub open spec fn sections_fill(
    sections: Seq<SectionHeader>,
    alignment: int,
    image_size: int,
) -> bool {
    &&& 0 < alignment
    &&& 0 < sections.len()
    &&& image_size <= usize::MAX
    &&& forall|i: int|
        0 <= i < sections.len() ==> (#[trigger] sections[i]).virtual_address < section_end(
            sections[i],
        ) && begins_behind(slot_after(sections, image_size, i), section_end(sections[i]), alignment)
}

/// Where the slot of section `i` ends: at the next section, or at the end of the image.
pub open spec fn slot_after(sections: Seq<SectionHeader>, image_size: int, i: int) -> int {
    if i + 1 < sections.len() {
        sections[i + 1].virtual_address as int
    } else {
        image_size
    }
}

/// Whether the byte at `x` lies in section `i`.
pub open spec fn lies_in(sections: Seq<SectionHeader>, i: int, x: int) -> bool {
    0 <= i < sections.len() && sections[i].virtual_address <= x < section_end(sections[i])
}

/// Whether the loader may leave out the byte at `x`: no section holds it that is not discardable.
pub open spec fn may_be_missing(sections: Seq<SectionHeader>, x: int) -> bool {
    forall|i: int| #[trigger]
        lies_in(sections, i, x) ==> sections[i].characteristics & 0x0200_0000 != 0
}

/// Whether a section holds a byte of `[start, end)`.
pub open spec fn holds_data(sections: Seq<SectionHeader>, start: int, end: int) -> bool {
    exists|i: int, x: int| start <= x < end && #[trigger] lies_in(sections, i, x)
}

/// Slots begin behind each other.
proof fn lemma_slots_ascend(
    sections: Seq<SectionHeader>,
    alignment: int,
    image_size: int,
    i: int,
    j: int,
)
    requires
        sections_fill(sections, alignment, image_size),
        0 <= i < j < sections.len(),
    ensures
        section_end(sections[i]) <= sections[j].virtual_address,
        slot_after(sections, image_size, i) <= sections[j].virtual_address,
    decreases j - i,
{
    assert(sections[i].virtual_address < section_end(sections[i]));
    if i + 1 < j {
        lemma_slots_ascend(sections, alignment, image_size, i + 1, j);
        assert(sections[i + 1].virtual_address < section_end(sections[i + 1]));
    }
}

/// The walk over the sections classifies every range that may be missing.
proof fn lemma_classifies(
    sections: Seq<SectionHeader>,
    alignment: int,
    image_size: int,
    index: int,
    covered: int,
    discarded: bool,
    end: int,
)
    requires
        sections_fill(sections, alignment, image_size),
        0 <= index <= sections.len(),
        covered < end <= image_size,
        index < sections.len() ==> sections[index].virtual_address <= covered,
        index == sections.len() ==> image_size <= covered,
        forall|x: int| covered <= x < end ==> #[trigger] may_be_missing(sections, x),
    ensures
        classify_over_sections(sections, index, covered, discarded, end, alignment) == Some(
            if discarded || holds_data(sections, covered, end) {
                ImageRegionDisposition::Discarded
            } else {
                ImageRegionDisposition::Padding
            },
        ),
    decreases sections.len() - index,
{
    let section = sections[index];
    assert(section.virtual_address < section_end(section));
    let slot = slot_after(sections, image_size, index);
    lemma_begins_behind(slot, section_end(section), alignment);
    assert(slot == align_up(section_end(section), alignment));
    assert(may_be_missing(sections, covered));
    let takes = covered < section_end(section);
    if takes {
        assert(lies_in(sections, index, covered));
        assert(holds_data(sections, covered, end));
    }
    let data_covered = if takes {
        section_end(section)
    } else {
        covered
    };
    if !(takes && end <= section_end(section)) {
        if data_covered < slot {
            if end <= slot {
                if !takes && holds_data(sections, covered, end) {
                    let (i, x) = choose|i: int, x: int|
                        covered <= x < end && #[trigger] lies_in(sections, i, x);
                    lemma_apart(sections, alignment, image_size, index, i, x);
                }
            } else {
                lemma_same_data(sections, alignment, image_size, index, covered, slot, end);
                lemma_classifies(
                    sections,
                    alignment,
                    image_size,
                    index + 1,
                    slot,
                    discarded || takes,
                    end,
                );
            }
        } else {
            lemma_same_data(sections, alignment, image_size, index, covered, data_covered, end);
            lemma_classifies(
                sections,
                alignment,
                image_size,
                index + 1,
                data_covered,
                discarded || takes,
                end,
            );
        }
    }
}

/// A byte of the slack behind a section lies in no section.
proof fn lemma_apart(
    sections: Seq<SectionHeader>,
    alignment: int,
    image_size: int,
    index: int,
    i: int,
    x: int,
)
    requires
        sections_fill(sections, alignment, image_size),
        0 <= index < sections.len(),
        section_end(sections[index]) <= x < slot_after(sections, image_size, index),
        x < image_size,
    ensures
        !lies_in(sections, i, x),
{
    if 0 <= i < sections.len() {
        if i < index {
            lemma_slots_ascend(sections, alignment, image_size, i, index);
            assert(sections[index].virtual_address < section_end(sections[index]));
        }
        if index < i {
            lemma_slots_ascend(sections, alignment, image_size, index, i);
        }
    }
}

/// Passing the slack behind a section passes no section data.
proof fn lemma_same_data(
    sections: Seq<SectionHeader>,
    alignment: int,
    image_size: int,
    index: int,
    covered: int,
    next: int,
    end: int,
)
    requires
        sections_fill(sections, alignment, image_size),
        0 <= index < sections.len(),
        sections[index].virtual_address <= covered <= next <= end <= image_size,
        next <= slot_after(sections, image_size, index) || next == covered,
    ensures
        covered < section_end(sections[index]) || (holds_data(sections, covered, end)
            <==> holds_data(sections, next, end)),
{
    if section_end(sections[index]) <= covered {
        if holds_data(sections, covered, end) {
            let (i, x) = choose|i: int, x: int|
                covered <= x < end && #[trigger] lies_in(sections, i, x);
            if x < next {
                lemma_apart(sections, alignment, image_size, index, i, x);
            }
            assert(next <= x < end && lies_in(sections, i, x));
        }
        if holds_data(sections, next, end) {
            let (i, x) = choose|i: int, x: int|
                next <= x < end && #[trigger] lies_in(sections, i, x);
            assert(covered <= x < end && lies_in(sections, i, x));
        }
    }
}

/// Every range behind the headers that may be missing is classified: as discarded where it holds
/// section data, else as padding.
pub proof fn law_missing_ranges_are_classified(
    sections: Seq<SectionHeader>,
    headers_size: int,
    alignment: int,
    image_size: int,
    start: int,
    end: int,
)
    requires
        sections_fill(sections, alignment, image_size),
        headers_size <= start < end <= image_size,
        forall|x: int| start <= x < end ==> #[trigger] may_be_missing(sections, x),
    ensures
        unavailable_disposition(start, end, headers_size, alignment, sections) == Some(
            if holds_data(sections, start, end) {
                ImageRegionDisposition::Discarded
            } else {
                ImageRegionDisposition::Padding
            },
        ),
{
    let first = sections[0].virtual_address as int;
    assert forall|i: int, x: int| x < first implies !(#[trigger] lies_in(sections, i, x)) by {
        if 0 < i < sections.len() {
            lemma_slots_ascend(sections, alignment, image_size, 0, i);
            assert(sections[0].virtual_address < section_end(sections[0]));
        }
    }
    if start < first {
        if end > first {
            lemma_classifies(sections, alignment, image_size, 0, first, false, end);
            if holds_data(sections, start, end) {
                let (i, x) = choose|i: int, x: int|
                    start <= x < end && #[trigger] lies_in(sections, i, x);
                assert(first <= x < end && lies_in(sections, i, x));
            }
            if holds_data(sections, first, end) {
                let (i, x) = choose|i: int, x: int|
                    first <= x < end && #[trigger] lies_in(sections, i, x);
                assert(start <= x < end && lies_in(sections, i, x));
            }
        }
    } else {
        lemma_classifies(sections, alignment, image_size, 0, start, false, end);
    }
}

/// A committed image region is readable unless it is guarded, without access, or executable alone;
/// a reserved one is what may be missing there; and nothing else belongs to an image.
pub proof fn law_image_regions(
    region: MemoryRegion,
    range_start: int,
    range_end: int,
    image_base: int,
    headers_size: int,
    alignment: int,
    sections: Seq<SectionHeader>,
)
    ensures
        ({
            let r = image_region_result(
                region,
                range_start,
                range_end,
                image_base,
                headers_size,
                alignment,
                sections,
            );
            let missing = unavailable_disposition(
                range_start - image_base,
                range_end - image_base,
                headers_size,
                alignment,
                sections,
            );
            let belongs = image_base <= range_start < range_end && region.allocation_base
                == image_base;
            let closed = region.protect & 0x100 != 0 || region.protect & 0xFF == 0x01
                || region.protect & 0xFF == 0x10;
            let committed = region.state == 0x1000 && region.region_type == MemoryRegionType::Image;
            &&& r is Ok ==> belongs
            &&& belongs && committed && !closed ==> r is Ok && r->Ok_0
                == ImageRegionDisposition::Readable
            &&& belongs && committed && closed && missing is Some && missing->0
                == ImageRegionDisposition::Padding ==> r is Ok && r->Ok_0
                == ImageRegionDisposition::Padding
            &&& belongs && committed && closed && !(missing is Some && missing->0
                == ImageRegionDisposition::Padding) ==> r is Ok && r->Ok_0
                == ImageRegionDisposition::Unreadable
            &&& belongs && region.state == 0x2000 ==> (r is Ok <==> missing is Some)
            &&& belongs && region.state == 0x2000 && missing is Some ==> r->Ok_0 == missing->0
            &&& region.state != 0x2000 && !committed ==> r is Err
        }),
{
}

/// The class of a region is told by one value each.
pub proof fn law_region_types(raw: u32)
    ensures
        region_type_of(raw) == MemoryRegionType::Image <==> raw == 0x100_0000,
        region_type_of(raw) == MemoryRegionType::Mapped <==> raw == 0x4_0000,
        region_type_of(raw) == MemoryRegionType::Private <==> raw == 0x2_0000,
{
}

/// Whether the byte at `x` lies in one of `ranges`.
pub open spec fn in_ranges(ranges: Seq<UnavailablePeRange>, x: int) -> bool {
    exists|i: int|
        0 <= i < ranges.len() && (#[trigger] ranges[i]).rva <= x < ranges[i].rva + ranges[i].size
}

/// Adding a discarded range adds its bytes to those that are unavailable, and no others.
pub proof fn law_discarded_bytes_are_added(
    ranges: Seq<UnavailablePeRange>,
    rva: int,
    size: int,
    x: int,
)
    requires
        0 <= rva,
        0 <= size,
        rva + size <= usize::MAX,
    ensures
        in_ranges(with_discarded(ranges, rva, size), x) <==> in_ranges(ranges, x) || rva <= x < rva
            + size,
{
    let after = with_discarded(ranges, rva, size);
    let last = ranges.len() - 1;
    if in_ranges(ranges, x) {
        let i = choose|i: int|
            0 <= i < ranges.len() && (#[trigger] ranges[i]).rva <= x < ranges[i].rva
                + ranges[i].size;
        assert(after[i].rva <= x < after[i].rva + after[i].size);
    }
    if rva <= x < rva + size {
        let i = after.len() - 1;
        assert(after[i].rva <= x < after[i].rva + after[i].size);
    }
    if in_ranges(after, x) {
        let i = choose|i: int|
            0 <= i < after.len() && (#[trigger] after[i]).rva <= x < after[i].rva + after[i].size;
        if i < ranges.len() {
            assert(i < last ==> ranges[i] == after[i]);
            assert(ranges[i].rva == after[i].rva);
        }
    }
}

/// Copying bytes in changes those alone.
pub proof fn law_copied_bytes(bytes: Seq<u8>, at: int, data: Seq<u8>, x: int)
    requires
        0 <= x < bytes.len(),
    ensures
        overwritten(bytes, at, data).len() == bytes.len(),
        at <= x < at + data.len() ==> overwritten(bytes, at, data)[x] == data[x - at],
        x < at || at + data.len() <= x ==> overwritten(bytes, at, data)[x] == bytes[x],
{
}

} // verus!
