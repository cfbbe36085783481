//! References to import-address slots, stated over the bytes of the executable sections.

use vstd::prelude::*;

use crate::imports::xrefs::{
    hits_target, law_every_xref_is_found, law_xrefs_lead_to_targets, refers, section_xrefs,
    stands_in_section, xref_at, xref_target, PeIatXref, PeIatXrefKind,
};
use crate::pe::types::{PeImage, SectionHeader};
use crate::sorting::ordered;

verus! {

/// Whether the six bytes from `at` on lie in the mapped span of an executable section and in the
/// data.
pub open spec fn reference_bytes_in(data: Seq<u8>, section: SectionHeader, at: int) -> bool {
    let size = if section.virtual_size != 0 {
        section.virtual_size as int
    } else {
        section.size_of_raw_data as int
    };
    &&& section.characteristics & 0x2000_0000 != 0
    &&& section.virtual_address + size <= usize::MAX
    &&& section.virtual_address <= at
    &&& at + 6 <= section.virtual_address + size
    &&& at + 6 <= data.len() <= usize::MAX
}

/// Where the four displacement bytes of a reference at `at` lead, counted from behind it.
pub open spec fn displaced(data: Seq<u8>, at: int) -> int {
    let raw = data[at + 2] + data[at + 3] * 0x100 + data[at + 4] * 0x1_0000 + data[at + 5]
        * 0x100_0000;
    if data[at + 5] >= 0x80 {
        at + 6 + raw - 0x1_0000_0000
    } else {
        at + 6 + raw
    }
}

/// Whether `xref` is the reference whose opcode bytes `FF 15` (a call) or `FF 25` (a jump) stand
/// at `at`; a byte from 0x40 to 0x4F before them belongs to the instruction unless it lies before
/// `start`.
pub open spec fn reference_stands(
    data: Seq<u8>,
    pe: PeImage,
    start: int,
    at: int,
    xref: PeIatXref,
) -> bool {
    &&& data[at] == 0xFF
    &&& data[at + 1] == (if xref.kind == PeIatXrefKind::Call {
        0x15u8
    } else {
        0x25u8
    })
    &&& xref.iat_rva == displaced(data, at)
    &&& if start < at && data[at - 1] >= 0x40 && data[at - 1] <= 0x4F {
        xref.instruction_rva == at - 1
    } else {
        xref.instruction_rva == at
    }
    &&& xref.file_offset == pe.file_offset(xref.instruction_rva as int)
}

/// Every call or jump through a target is listed, whatever its bytes stand behind: each `FF 15` or
/// `FF 25` in an executable section whose displacement leads to a target.
pub proof fn law_every_call_and_jump_is_listed(
    data: Seq<u8>,
    pe: PeImage,
    targets: Set<usize>,
    found: Seq<PeIatXref>,
    index: int,
    at: int,
) -> (n: int)
    requires
        found.to_multiset() == section_xrefs(
            data,
            pe,
            targets,
            pe.sections@.len() as int,
        ).to_multiset(),
        0 <= index < pe.sections@.len(),
        reference_bytes_in(data, pe.sections@[index], at),
        data[at] == 0xFF,
        data[at + 1] == 0x15 || data[at + 1] == 0x25,
        0 <= displaced(data, at) <= usize::MAX,
        targets.contains(displaced(data, at) as usize),
    ensures
        0 <= n < found.len(),
        reference_stands(data, pe, pe.sections@[index].virtual_address as int, at, found[n]),
        found[n].kind == PeIatXrefKind::Call <==> data[at + 1] == 0x15,
{
    let section = pe.sections@[index];
    let start = section.virtual_address as int;
    assert(xref_target(data, at) == displaced(data, at));
    assert(hits_target(data, targets, at));
    assert(stands_in_section(data, pe, targets, index, at));
    let count = pe.sections@.len() as int;
    law_every_xref_is_found(data, pe, targets, index, count, at);
    let wanted = xref_at(data, pe, start, at);
    let all = section_xrefs(data, pe, targets, count);
    all.to_multiset_ensures();
    found.to_multiset_ensures();
    assert(all.to_multiset().count(wanted) > 0);
    assert(found.contains(wanted));
    found.index_of(wanted)
}

/// Nothing else is listed: each listed reference stands in an executable section and leads to a
/// target.
pub proof fn law_listed_references_stand(
    data: Seq<u8>,
    pe: PeImage,
    targets: Set<usize>,
    found: Seq<PeIatXref>,
    n: int,
) -> (place: (int, int))
    requires
        data.len() <= usize::MAX,
        found.to_multiset() == section_xrefs(
            data,
            pe,
            targets,
            pe.sections@.len() as int,
        ).to_multiset(),
        0 <= n < found.len(),
    ensures
        ({
            let (index, at) = place;
            &&& 0 <= index < pe.sections@.len()
            &&& reference_bytes_in(data, pe.sections@[index], at)
            &&& reference_stands(
                data,
                pe,
                pe.sections@[index].virtual_address as int,
                at,
                found[n],
            )
            &&& targets.contains(found[n].iat_rva)
        }),
{
    let count = pe.sections@.len() as int;
    let all = section_xrefs(data, pe, targets, count);
    all.to_multiset_ensures();
    found.to_multiset_ensures();
    assert(found.contains(found[n]));
    assert(found.to_multiset().count(found[n]) > 0);
    assert(all.contains(found[n]));
    let i = all.index_of(found[n]);
    law_xrefs_lead_to_targets(data, pe, targets, count, i);
    let (index, at) = choose|index: int, at: int|
        0 <= index < count && #[trigger] stands_in_section(data, pe, targets, index, at) && all[i]
            == xref_at(data, pe, pe.sections@[index].virtual_address as int, at);
    assert(refers(data, targets, at));
    assert(xref_target(data, at) == displaced(data, at));
    (index, at)
}

/// Ordered references ascend by their instruction.
pub proof fn law_ordered_references_ascend(found: Seq<PeIatXref>, i: int, j: int)
    requires
        ordered(found),
        0 <= i <= j < found.len(),
    ensures
        found[i].instruction_rva <= found[j].instruction_rva,
{
}

} // verus!
