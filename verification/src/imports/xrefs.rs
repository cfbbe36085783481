//! Direct RIP-relative calls and jumps through import-address slots.

use std::collections::HashSet;

use vstd::prelude::*;

use crate::bytes::{get_u32, le32, signed32, to_signed32};
use crate::pe::layout::executable;
use crate::pe::locate::{get_file_offset_from_pe, get_mapped_section_size, mapped_end};
use crate::pe::types::{PeImage, SectionHeader};
use crate::progress::{due_position, interval_updates, report_position, Progress};
use crate::scan::{
    count_executable_bytes, executable_bytes, scan_end, scan_range, scan_size, scanned,
};
use crate::sorting::{ordered, sort_records, RvaNamed};
use crate::windows::IMAGE_SCN_MEM_EXECUTE;

verus! {

broadcast use vstd::std_specs::hash::group_hash_axioms;

/// Byte length of one direct RIP-relative call or jump.
pub const XREF_SIZE: usize = 6;

/// Describes the direct instruction form used to reference an IAT slot.
#[derive(Clone, Copy, Debug, Eq, PartialEq, Structural)]
pub enum PeIatXrefKind {
    Call,
    Jump,
}

/// Describes one direct x64 call or jump reference to an IAT slot.
#[derive(Clone, Copy, Debug, Eq, PartialEq, Structural)]
pub struct PeIatXref {
    pub iat_rva: usize,
    pub instruction_rva: usize,
    pub file_offset: Option<usize>,
    pub kind: PeIatXrefKind,
}

impl RvaNamed for PeIatXref {
    open spec fn key_rva(&self) -> usize {
        self.instruction_rva
    }

    open spec fn key_name(&self) -> Seq<char> {
        ""@
    }

    fn rva_key(&self) -> usize {
        self.instruction_rva
    }

    fn name_key(&self) -> &'static str {
        ""
    }
}

/// The form of the reference whose two opcode bytes stand at `at`.
pub open spec fn xref_kind(data: Seq<u8>, at: int) -> Option<PeIatXrefKind> {
    if data[at] != 0xFF {
        None
    } else if data[at + 1] == 0x15 {
        Some(PeIatXrefKind::Call)
    } else if data[at + 1] == 0x25 {
        Some(PeIatXrefKind::Jump)
    } else {
        None
    }
}

/// The RVA that the displacement of a reference at `at` leads to.
pub open spec fn xref_target(data: Seq<u8>, at: int) -> int {
    at + XREF_SIZE + signed32(le32(data, at + 2))
}

/// The record of the reference at `at` of a range from `start` on; a REX prefix before it belongs
/// to it.
pub open spec fn xref_at(data: Seq<u8>, pe: PeImage, start: int, at: int) -> PeIatXref {
    let instruction = if at > start && 0x40 <= data[at - 1] <= 0x4F {
        at - 1
    } else {
        at
    };
    PeIatXref {
        iat_rva: xref_target(data, at) as usize,
        instruction_rva: instruction as usize,
        file_offset: pe.file_offset(instruction),
        kind: xref_kind(data, at)->0,
    }
}

/// Whether the reference at `at` leads to one of `targets`.
pub open spec fn hits_target(data: Seq<u8>, targets: Set<usize>, at: int) -> bool {
    0 <= xref_target(data, at) <= usize::MAX && targets.contains(xref_target(data, at) as usize)
}

/// Whether a reference to one of `targets` stands at `at`.
pub open spec fn refers(data: Seq<u8>, targets: Set<usize>, at: int) -> bool {
    xref_kind(data, at) is Some && hits_target(data, targets, at)
}

/// The references that begin from `start` on and before `limit`, one for each offset at which one
/// stands, in order.
pub open spec fn xrefs_below(
    data: Seq<u8>,
    pe: PeImage,
    start: int,
    targets: Set<usize>,
    limit: int,
) -> Seq<PeIatXref>
    decreases limit - start,
{
    if limit <= start {
        Seq::empty()
    } else {
        let before = xrefs_below(data, pe, start, targets, limit - 1);
        if refers(data, targets, limit - 1) {
            before.push(xref_at(data, pe, start, limit - 1))
        } else {
            before
        }
    }
}

/// How many offsets of `[start, end)` have room for a whole reference.
pub open spec fn position_count(start: int, end: int) -> int {
    if start + XREF_SIZE <= end {
        end - start - XREF_SIZE + 1
    } else {
        0
    }
}

/// The references whose six bytes lie in `[start, end)`.
pub open spec fn xrefs_in(
    data: Seq<u8>,
    pe: PeImage,
    start: int,
    end: int,
    targets: Set<usize>,
) -> Seq<PeIatXref> {
    xrefs_below(data, pe, start, targets, start + position_count(start, end))
}

/// Reads the reference to a target that stands at an offset of a range, if there is one.
fn read_xref_at(
    pe_data: &[u8],
    pe: &PeImage,
    section_start: usize,
    opcode_rva: usize,
    targets: &HashSet<usize>,
) -> (r: Option<PeIatXref>)
    requires
        section_start <= opcode_rva,
        opcode_rva + XREF_SIZE <= pe_data@.len(),
    ensures
        r == (if refers(pe_data@, targets@, opcode_rva as int) {
            Some(xref_at(pe_data@, *pe, section_start as int, opcode_rva as int))
        } else {
            None
        }),
{
    assert(opcode_rva + XREF_SIZE <= pe_data.len());
    let kind: PeIatXrefKind = if pe_data[opcode_rva] != 0xFF {
        return None;
    } else if pe_data[opcode_rva + 1] == 0x15 {
        PeIatXrefKind::Call
    } else if pe_data[opcode_rva + 1] == 0x25 {
        PeIatXrefKind::Jump
    } else {
        return None;
    };
    let displacement: i32 = to_signed32(get_u32(pe_data, opcode_rva + 2));
    let next_instruction_rva: usize = opcode_rva + XREF_SIZE;
    let iat_rva: usize = match next_instruction_rva.checked_add_signed(displacement as isize) {
        Some(value) => value,
        None => return None,
    };
    if !targets.contains(&iat_rva) {
        return None;
    }
    let instruction_rva: usize = if opcode_rva > section_start && pe_data[opcode_rva - 1] >= 0x40
        && pe_data[opcode_rva - 1] <= 0x4F {
        opcode_rva - 1
    } else {
        opcode_rva
    };
    Some(
        PeIatXref {
            iat_rva,
            instruction_rva,
            file_offset: get_file_offset_from_pe(pe, instruction_rva),
            kind,
        },
    )
}

/// Scans one executable image range for direct RIP-relative IAT references.
pub fn collect_iat_xrefs_in_range<P: Progress>(
    pe_data: &[u8],
    pe: &PeImage,
    section_start: usize,
    section_end: usize,
    targets: &HashSet<usize>,
    xrefs: &mut Vec<PeIatXref>,
    completed_before_section: usize,
    total_bytes: usize,
    progress: &mut P,
)
    requires
        section_end <= pe_data@.len(),
    ensures
        final(xrefs)@ == old(xrefs)@ + xrefs_in(
            pe_data@,
            *pe,
            section_start as int,
            section_end as int,
            targets@,
        ),
        final(progress).updates() == old(progress).updates() + interval_updates(
            completed_before_section,
            position_count(section_start as int, section_end as int),
            total_bytes,
        ),
{
    let ghost earlier = progress.updates();
    let ghost found = xrefs@;
    let positions: usize = if section_start <= section_end && section_end - section_start
        >= XREF_SIZE {
        section_end - section_start - XREF_SIZE + 1
    } else {
        0
    };
    let mut position: usize = 0;
    let mut next_progress_position: usize = 0;
    assert(earlier + interval_updates(completed_before_section, 0, total_bytes) =~= earlier);
    assert(found + xrefs_below(pe_data@, *pe, section_start as int, targets@, section_start as int)
        =~= found);
    assert(pe_data.len() == pe_data@.len());
    while position < positions
        invariant
            position <= positions,
            pe_data@.len() <= usize::MAX,
            section_end <= pe_data@.len(),
            positions == position_count(section_start as int, section_end as int),
            xrefs@ == found + xrefs_below(
                pe_data@,
                *pe,
                section_start as int,
                targets@,
                section_start + position,
            ),
            due_position(position as int, next_progress_position),
            progress.updates() == earlier + interval_updates(
                completed_before_section,
                position as int,
                total_bytes,
            ),
        decreases positions - position,
    {
        next_progress_position =
        report_position(
            progress,
            position,
            next_progress_position,
            completed_before_section,
            total_bytes,
            Ghost(earlier),
        );
        match read_xref_at(pe_data, pe, section_start, section_start + position, targets) {
            Some(xref) => {
                xrefs.push(xref);
            },
            None => {},
        }
        assert(xrefs@ =~= found + xrefs_below(
            pe_data@,
            *pe,
            section_start as int,
            targets@,
            section_start + position + 1,
        ));
        position += 1;
    }
}

/// Whether a section is executable and ends inside the address range.
pub open spec fn searched(section: SectionHeader) -> bool {
    executable(section) && mapped_end(section) <= usize::MAX
}

/// The bytes searched in the first `count` sections.
pub open spec fn searched_bytes(sections: Seq<SectionHeader>, count: int, len: int) -> usize
    decreases count,
{
    if count <= 0 {
        0
    } else if searched(sections[count - 1]) {
        searched_bytes(sections, count - 1, len).saturating_add(
            scan_size(sections[count - 1], len) as usize,
        )
    } else {
        searched_bytes(sections, count - 1, len)
    }
}

/// The references in the searched sections among the first `count`.
pub open spec fn section_xrefs(
    data: Seq<u8>,
    pe: PeImage,
    targets: Set<usize>,
    count: int,
) -> Seq<PeIatXref>
    decreases count,
{
    if count <= 0 {
        Seq::empty()
    } else {
        let section = pe.sections@[count - 1];
        let before = section_xrefs(data, pe, targets, count - 1);
        if searched(section) && scanned(section, data.len() as int) {
            before + xrefs_in(
                data,
                pe,
                section.virtual_address as int,
                scan_end(section, data.len() as int),
                targets,
            )
        } else {
            before
        }
    }
}

/// The updates of the search of the searched sections among the first `count`, appended to
/// `earlier`.
pub open spec fn section_xref_updates(
    len: int,
    sections: Seq<SectionHeader>,
    count: int,
    total: usize,
    earlier: Seq<(usize, usize)>,
) -> Seq<(usize, usize)>
    decreases count,
{
    if count <= 0 {
        earlier.push((0usize, total))
    } else if searched(sections[count - 1]) {
        let section = sections[count - 1];
        let before = section_xref_updates(len, sections, count - 1, total, earlier);
        let reported = if scanned(section, len) {
            before + interval_updates(
                searched_bytes(sections, count - 1, len),
                position_count(section.virtual_address as int, scan_end(section, len)),
                total,
            )
        } else {
            before
        };
        reported.push((searched_bytes(sections, count, len), total))
    } else {
        section_xref_updates(len, sections, count - 1, total, earlier)
    }
}

/// Scans executable sections once for every selected IAT target, in instruction order.
pub fn collect_iat_xrefs_for_targets<P: Progress>(
    pe_data: &[u8],
    pe: &PeImage,
    targets: &HashSet<usize>,
    progress: &mut P,
) -> (r: Vec<PeIatXref>)
    ensures
        ordered(r@),
        targets@.len() == 0 ==> {
            &&& r@.len() == 0
            &&& final(progress).updates() == old(progress).updates().push((0, 0))
        },
        targets@.len() != 0 ==> {
            &&& r@.to_multiset() == section_xrefs(
                pe_data@,
                *pe,
                targets@,
                pe.sections@.len() as int,
            ).to_multiset()
            &&& final(progress).updates() == section_xref_updates(
                pe_data@.len() as int,
                pe.sections@,
                pe.sections@.len() as int,
                executable_bytes(pe.sections@, pe.sections@.len() as int, pe_data@.len() as int),
                old(progress).updates(),
            )
        },
{
    let mut xrefs: Vec<PeIatXref> = Vec::new();
    if targets.len() == 0 {
        progress.update(0, 0);
        return xrefs;
    }
    let ghost earlier = progress.updates();
    let total_bytes: usize = count_executable_bytes(&pe.sections, pe_data.len());
    let mut completed_bytes: usize = 0;
    progress.update(0, total_bytes);
    let mut index: usize = 0;
    assert(xrefs@ =~= section_xrefs(pe_data@, *pe, targets@, 0));
    while index < pe.sections.len()
        invariant
            index <= pe.sections@.len(),
            completed_bytes == searched_bytes(
                pe.sections@,
                index as int,
                pe_data@.len() as int,
            ),
            xrefs@ == section_xrefs(pe_data@, *pe, targets@, index as int),
            progress.updates() == section_xref_updates(
                pe_data@.len() as int,
                pe.sections@,
                index as int,
                total_bytes,
                earlier,
            ),
        decreases pe.sections.len() - index,
    {
        let section = &pe.sections[index];
        let addressable: bool = (section.virtual_address as usize).checked_add(
            get_mapped_section_size(section),
        ).is_some();
        if section.characteristics & IMAGE_SCN_MEM_EXECUTE != 0 && addressable {
            match scan_range(section, pe_data.len()) {
                Some((section_start, section_end)) => {
                    collect_iat_xrefs_in_range(
                        pe_data,
                        pe,
                        section_start,
                        section_end,
                        targets,
                        &mut xrefs,
                        completed_bytes,
                        total_bytes,
                        progress,
                    );
                    completed_bytes = completed_bytes.saturating_add(section_end - section_start);
                },
                None => {},
            }
            progress.update(completed_bytes, total_bytes);
        }
        index += 1;
    }
    sort_records(xrefs)
}

/// Every listed reference of a range stands at one of its offsets.
proof fn lemma_listed_xref_stands(
    data: Seq<u8>,
    pe: PeImage,
    start: int,
    targets: Set<usize>,
    limit: int,
    i: int,
) -> (at: int)
    requires
        0 <= i < xrefs_below(data, pe, start, targets, limit).len(),
    ensures
        start <= at < limit,
        refers(data, targets, at),
        xrefs_below(data, pe, start, targets, limit)[i] == xref_at(data, pe, start, at),
        i == xrefs_below(data, pe, start, targets, at).len(),
    decreases limit - start,
{
    let before = xrefs_below(data, pe, start, targets, limit - 1);
    if i < before.len() {
        lemma_listed_xref_stands(data, pe, start, targets, limit - 1, i)
    } else {
        limit - 1
    }
}

/// The references before a smaller limit are a prefix of those before a larger one.
proof fn lemma_xrefs_grow(
    data: Seq<u8>,
    pe: PeImage,
    start: int,
    targets: Set<usize>,
    low: int,
    high: int,
)
    requires
        low <= high,
    ensures
        xrefs_below(data, pe, start, targets, low).len() <= xrefs_below(
            data,
            pe,
            start,
            targets,
            high,
        ).len(),
        forall|i: int|
            0 <= i < xrefs_below(data, pe, start, targets, low).len() ==> xrefs_below(
                data,
                pe,
                start,
                targets,
                low,
            )[i] == #[trigger] xrefs_below(data, pe, start, targets, high)[i],
    decreases high - low,
{
    if low < high {
        lemma_xrefs_grow(data, pe, start, targets, low, high - 1);
    }
}

/// A reference that stands at an offset of a range is listed.
proof fn lemma_xref_listed(
    data: Seq<u8>,
    pe: PeImage,
    start: int,
    targets: Set<usize>,
    limit: int,
    at: int,
)
    requires
        start <= at < limit,
        refers(data, targets, at),
    ensures
        xrefs_below(data, pe, start, targets, limit).contains(xref_at(data, pe, start, at)),
{
    let here = xrefs_below(data, pe, start, targets, at);
    lemma_xrefs_grow(data, pe, start, targets, at + 1, limit);
    let with_it = xrefs_below(data, pe, start, targets, at + 1);
    assert(with_it[here.len() as int] == xref_at(data, pe, start, at));
    assert(xrefs_below(data, pe, start, targets, limit)[here.len() as int] == xref_at(
        data,
        pe,
        start,
        at,
    ));
}

/// Whether a whole reference to one of `targets` stands at `at` of searched section `index`.
pub open spec fn stands_in_section(
    data: Seq<u8>,
    pe: PeImage,
    targets: Set<usize>,
    index: int,
    at: int,
) -> bool {
    &&& searched(pe.sections@[index])
    &&& scanned(pe.sections@[index], data.len() as int)
    &&& pe.sections@[index].virtual_address <= at
    &&& at + XREF_SIZE <= scan_end(pe.sections@[index], data.len() as int)
    &&& refers(data, targets, at)
}

/// Every reference to a target whose bytes lie in a searched section is found, those inside
/// another one included.
pub proof fn law_every_xref_is_found(
    data: Seq<u8>,
    pe: PeImage,
    targets: Set<usize>,
    index: int,
    count: int,
    at: int,
)
    requires
        0 <= index < count <= pe.sections@.len(),
        stands_in_section(data, pe, targets, index, at),
    ensures
        section_xrefs(data, pe, targets, count).contains(
            xref_at(data, pe, pe.sections@[index].virtual_address as int, at),
        ),
    decreases count,
{
    let section = pe.sections@[count - 1];
    let start = section.virtual_address as int;
    let end = scan_end(section, data.len() as int);
    let before = section_xrefs(data, pe, targets, count - 1);
    let here = xrefs_in(data, pe, start, end, targets);
    let wanted = xref_at(data, pe, pe.sections@[index].virtual_address as int, at);
    if index == count - 1 {
        lemma_xref_listed(data, pe, start, targets, start + position_count(start, end), at);
        let i = here.index_of(wanted);
        assert((before + here)[before.len() + i] == wanted);
    } else {
        law_every_xref_is_found(data, pe, targets, index, count - 1, at);
        let i = before.index_of(wanted);
        if searched(section) && scanned(section, data.len() as int) {
            assert((before + here)[i] == wanted);
        }
    }
}

/// The place of a listed reference: its section and its offset.
proof fn lemma_xref_place(
    data: Seq<u8>,
    pe: PeImage,
    targets: Set<usize>,
    count: int,
    i: int,
) -> (place: (int, int))
    requires
        0 <= count <= pe.sections@.len(),
        0 <= i < section_xrefs(data, pe, targets, count).len(),
    ensures
        ({
            let (index, at) = place;
            &&& 0 <= index < count
            &&& stands_in_section(data, pe, targets, index, at)
            &&& section_xrefs(data, pe, targets, count)[i] == xref_at(
                data,
                pe,
                pe.sections@[index].virtual_address as int,
                at,
            )
        }),
    decreases count,
{
    let section = pe.sections@[count - 1];
    let start = section.virtual_address as int;
    let end = scan_end(section, data.len() as int);
    let before = section_xrefs(data, pe, targets, count - 1);
    if i < before.len() {
        lemma_xref_place(data, pe, targets, count - 1, i)
    } else {
        let at = lemma_listed_xref_stands(
            data,
            pe,
            start,
            targets,
            start + position_count(start, end),
            i - before.len(),
        );
        (count - 1, at)
    }
}

/// Every reference that is found stands in a searched section and leads to one of the targets.
pub proof fn law_xrefs_lead_to_targets(
    data: Seq<u8>,
    pe: PeImage,
    targets: Set<usize>,
    count: int,
    i: int,
)
    requires
        0 <= count <= pe.sections@.len(),
        0 <= i < section_xrefs(data, pe, targets, count).len(),
    ensures
        targets.contains(section_xrefs(data, pe, targets, count)[i].iat_rva),
        exists|index: int, at: int|
            0 <= index < count && #[trigger] stands_in_section(data, pe, targets, index, at)
                && section_xrefs(data, pe, targets, count)[i] == xref_at(
                data,
                pe,
                pe.sections@[index].virtual_address as int,
                at,
            ),
{
    let (index, at) = lemma_xref_place(data, pe, targets, count, i);
    assert(stands_in_section(data, pe, targets, index, at));
}

/// Whether the scanned bytes of no two sections overlap.
pub open spec fn scans_apart(sections: Seq<SectionHeader>, len: int) -> bool {
    forall|i: int, j: int|
        0 <= i < j < sections.len() && scanned(#[trigger] sections[i], len) && scanned(
            #[trigger] sections[j],
            len,
        ) ==> scan_end(sections[i], len) <= sections[j].virtual_address || scan_end(
            sections[j],
            len,
        ) <= sections[i].virtual_address
}

/// Where sections do not overlap, no two references that are found have the same instruction.
pub proof fn law_xrefs_are_distinct(
    data: Seq<u8>,
    pe: PeImage,
    targets: Set<usize>,
    count: int,
    i: int,
    j: int,
)
    requires
        data.len() <= usize::MAX,
        scans_apart(pe.sections@, data.len() as int),
        0 <= count <= pe.sections@.len(),
        0 <= i < j < section_xrefs(data, pe, targets, count).len(),
    ensures
        section_xrefs(data, pe, targets, count)[i].instruction_rva != section_xrefs(
            data,
            pe,
            targets,
            count,
        )[j].instruction_rva,
    decreases count,
{
    let section = pe.sections@[count - 1];
    let start = section.virtual_address as int;
    let end = scan_end(section, data.len() as int);
    let limit = start + position_count(start, end);
    let before = section_xrefs(data, pe, targets, count - 1);
    let all = section_xrefs(data, pe, targets, count);
    if j < before.len() {
        law_xrefs_are_distinct(data, pe, targets, count - 1, i, j);
        assert(all[i] == before[i] && all[j] == before[j]);
    } else {
        let later = lemma_listed_xref_stands(data, pe, start, targets, limit, j - before.len());
        assert(all[j] == xref_at(data, pe, start, later));
        if i < before.len() {
            let (index, at) = lemma_xref_place(data, pe, targets, count - 1, i);
            assert(all[i] == before[i]);
            assert(scanned(pe.sections@[index], data.len() as int));
            assert(scanned(pe.sections@[count - 1], data.len() as int));
        } else {
            let at = lemma_listed_xref_stands(
                data,
                pe,
                start,
                targets,
                limit,
                i - before.len(),
            );
            assert(all[i] == xref_at(data, pe, start, at));
            if at >= later {
                lemma_xrefs_grow(data, pe, start, targets, later, at);
            }
            assert(data[at] == 0xFF);
        }
    }
}

} // verus!
