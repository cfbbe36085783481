//! Collected imports with their references, and the bytes that collecting them needs.

use vstd::prelude::*;

use crate::bytes::{le32, le64, lemma_nul_index, nul_index};
use crate::imports::availability::{
    executable_overlap, overlapping_from, terminated_size, unavailable_import_range,
    unavailable_overlap, walk_descriptors, walk_thunks,
};
use crate::imports::collector::{
    grouped_imports, import_slots, imports_collected, xrefs_to, ProcessImportInfo,
    ProcessImportXref,
};
use crate::imports::parsing::{import_entries, ImportDescriptorTable, ImportEntryView};
use crate::imports::xrefs::{section_xrefs, PeIatXref, PeIatXrefKind};
use crate::laws::imports::{descriptor_bytes, descriptor_stands, imports_declared, thunks_of};
use crate::laws::locate::section_end;
use crate::laws::xrefs::{
    displaced, law_every_call_and_jump_is_listed, law_listed_references_stand, reference_bytes_in,
    reference_stands,
};
use crate::pe::types::{PeImage, SectionHeader, UnavailablePeRange, ValidatedPeSnapshot};
use crate::sorting::ordered;

verus! {

/// The references of a slot, by their places among all references.
proof fn lemma_selected_places(
    base: usize,
    xrefs: Seq<PeIatXref>,
    count: int,
    slot: usize,
    a: int,
    b: int,
) -> (places: (int, int))
    requires
        0 <= count <= xrefs.len(),
        0 <= a <= b < xrefs_to(base, xrefs, count, slot).len(),
    ensures
        ({
            let (j, k) = places;
            &&& 0 <= j <= k < count
            &&& a < b ==> j < k
            &&& selected(base, xrefs[j], slot, xrefs_to(base, xrefs, count, slot)[a])
            &&& selected(base, xrefs[k], slot, xrefs_to(base, xrefs, count, slot)[b])
        }),
    decreases count,
{
    let before = xrefs_to(base, xrefs, count - 1, slot);
    let all = xrefs_to(base, xrefs, count, slot);
    if b < before.len() {
        assert(all[a] == before[a] && all[b] == before[b]);
        lemma_selected_places(base, xrefs, count - 1, slot, a, b)
    } else if a < before.len() {
        assert(all[a] == before[a]);
        let (j, _k) = lemma_selected_places(base, xrefs, count - 1, slot, a, a);
        (j, count - 1)
    } else {
        (count - 1, count - 1)
    }
}

/// Whether a process reference is the reference to a slot, with its address where it has one.
pub open spec fn selected(
    base: usize,
    xref: PeIatXref,
    slot: usize,
    kept: ProcessImportXref,
) -> bool {
    &&& xref.iat_rva == slot
    &&& kept.kind == xref.kind
    &&& kept.instruction_rva == xref.instruction_rva
    &&& kept.instruction_file_offset == xref.file_offset
    &&& base + xref.instruction_rva <= usize::MAX ==> kept.instruction_address == Some(
        (base + xref.instruction_rva) as usize,
    )
    &&& base + xref.instruction_rva > usize::MAX ==> kept.instruction_address is None
}

/// A reference to a slot is selected for it.
proof fn lemma_selected_at(
    base: usize,
    xrefs: Seq<PeIatXref>,
    count: int,
    k: int,
) -> (n: int)
    requires
        0 <= k < count <= xrefs.len(),
    ensures
        0 <= n < xrefs_to(base, xrefs, count, xrefs[k].iat_rva).len(),
        selected(
            base,
            xrefs[k],
            xrefs[k].iat_rva,
            xrefs_to(base, xrefs, count, xrefs[k].iat_rva)[n],
        ),
    decreases count,
{
    let slot = xrefs[k].iat_rva;
    let before = xrefs_to(base, xrefs, count - 1, slot);
    let all = xrefs_to(base, xrefs, count, slot);
    if k == count - 1 {
        before.len() as int
    } else {
        let n = lemma_selected_at(base, xrefs, count - 1, k);
        assert(all[n] == before[n]);
        n
    }
}

/// Every import is collected, in order, with its names and its slot.
pub proof fn law_every_import_is_collected(
    infos: Seq<ProcessImportInfo>,
    base: usize,
    data: Seq<u8>,
    pe: PeImage,
    n: int,
)
    requires
        imports_collected(infos, base, data, pe),
        0 <= n < infos.len() || 0 <= n < import_entries(data, pe).len(),
    ensures
        infos.len() == import_entries(data, pe).len(),
        infos[n].library_name@ == import_entries(data, pe)[n].library_name,
        infos[n].function_name@ == import_entries(data, pe)[n].function_name,
        infos[n].ordinal == import_entries(data, pe)[n].ordinal,
        infos[n].iat_rva == import_entries(data, pe)[n].iat_rva,
        infos[n].iat_file_offset == import_entries(data, pe)[n].file_offset,
        match infos[n].iat_address {
            Some(address) => address == base + infos[n].iat_rva,
            None => base + infos[n].iat_rva > usize::MAX,
        },
{
    let imports = import_entries(data, pe);
    let xrefs = choose|xrefs: Seq<PeIatXref>| #[trigger]
        grouped_imports(infos, base, imports, xrefs) && ordered(xrefs) && xrefs.to_multiset()
            == section_xrefs(
            data,
            pe,
            import_slots(imports),
            pe.sections@.len() as int,
        ).to_multiset();
    assert(infos[n].groups(base, imports, n, xrefs));
}

/// Every call or jump through the slot of an import is kept with the import.
pub proof fn law_every_call_is_collected(
    infos: Seq<ProcessImportInfo>,
    base: usize,
    data: Seq<u8>,
    pe: PeImage,
    n: int,
    index: int,
    at: int,
) -> (m: int)
    requires
        imports_collected(infos, base, data, pe),
        0 <= n < infos.len(),
        0 <= index < pe.sections@.len(),
        reference_bytes_in(data, pe.sections@[index], at),
        data[at] == 0xFF,
        data[at + 1] == 0x15 || data[at + 1] == 0x25,
        displaced(data, at) == infos[n].iat_rva,
    ensures
        ({
            let kept = infos[n].xrefs@[m];
            let prefixed = at > pe.sections@[index].virtual_address && 0x40 <= data[at - 1] <= 0x4F;
            &&& 0 <= m < infos[n].xrefs@.len()
            &&& kept.kind == PeIatXrefKind::Call <==> data[at + 1] == 0x15
            &&& prefixed ==> kept.instruction_rva == at - 1
            &&& !prefixed ==> kept.instruction_rva == at
            &&& match kept.instruction_address {
                Some(address) => address == base + kept.instruction_rva,
                None => base + kept.instruction_rva > usize::MAX,
            }
        }),
{
    let imports = import_entries(data, pe);
    let slots = import_slots(imports);
    let xrefs = choose|xrefs: Seq<PeIatXref>| #[trigger]
        grouped_imports(infos, base, imports, xrefs) && ordered(xrefs) && xrefs.to_multiset()
            == section_xrefs(data, pe, slots, pe.sections@.len() as int).to_multiset();
    assert(infos[n].groups(base, imports, n, xrefs));
    let all = imports.map_values(|import: ImportEntryView| import.iat_rva);
    assert(all[n] == infos[n].iat_rva);
    assert(all.contains(infos[n].iat_rva));
    assert(slots.contains(infos[n].iat_rva));
    let k = law_every_call_and_jump_is_listed(data, pe, slots, xrefs, index, at);
    lemma_selected_at(base, xrefs, xrefs.len() as int, k)
}

/// The references kept with an import stand in executable sections, lead to its slot, and ascend by
/// their instruction.
pub proof fn law_collected_calls_stand(
    infos: Seq<ProcessImportInfo>,
    base: usize,
    data: Seq<u8>,
    pe: PeImage,
    n: int,
    a: int,
    b: int,
) -> (place: (int, int))
    requires
        data.len() <= usize::MAX,
        imports_collected(infos, base, data, pe),
        0 <= n < infos.len(),
        0 <= a <= b < infos[n].xrefs@.len(),
    ensures
        infos[n].xrefs@[a].instruction_rva <= infos[n].xrefs@[b].instruction_rva,
        ({
            let (index, at) = place;
            let kept = infos[n].xrefs@[a];
            &&& 0 <= index < pe.sections@.len()
            &&& reference_bytes_in(data, pe.sections@[index], at)
            &&& data[at] == 0xFF
            &&& data[at + 1] == (if kept.kind == PeIatXrefKind::Call {
                0x15u8
            } else {
                0x25u8
            })
            &&& displaced(data, at) == infos[n].iat_rva
            &&& kept.instruction_rva == at || kept.instruction_rva == at - 1
        }),
{
    let imports = import_entries(data, pe);
    let slots = import_slots(imports);
    let xrefs = choose|xrefs: Seq<PeIatXref>| #[trigger]
        grouped_imports(infos, base, imports, xrefs) && ordered(xrefs) && xrefs.to_multiset()
            == section_xrefs(data, pe, slots, pe.sections@.len() as int).to_multiset();
    assert(infos[n].groups(base, imports, n, xrefs));
    let (j, k) = lemma_selected_places(
        base,
        xrefs,
        xrefs.len() as int,
        infos[n].iat_rva,
        a,
        b,
    );
    let (index, at) = law_listed_references_stand(data, pe, slots, xrefs, j);
    assert(reference_stands(
        data,
        pe,
        pe.sections@[index].virtual_address as int,
        at,
        xrefs[j],
    ));
    (index, at)
}

/// What collecting imports needs to read: the directory, the library name of a descriptor, a
/// lookup thunk, its address slot, the name it leads to, or an executable section.
pub ghost enum ImportNeed {
    Directory,
    Library(int),
    Thunk(int, int),
    Slot(int, int),
    Name(int, int),
    Section(int),
}

/// Whether the thunks before thunk `k` of the descriptor at `at` are there and lead on.
pub open spec fn thunks_run(data: Seq<u8>, at: int, k: int) -> bool {
    &&& 0 <= k
    &&& le32(data, at + 16) != 0
    &&& forall|m: int| 0 <= m < k ==> #[trigger] thunk_leads_on(data, at, m)
}

/// Whether thunk `m` of the descriptor at `at` is there, is not zero, and has its slot and name in
/// the address range.
pub open spec fn thunk_leads_on(data: Seq<u8>, at: int, m: int) -> bool {
    let value = le64(data, thunks_of(data, at) + 8 * m);
    &&& thunks_of(data, at) + 8 * m + 8 <= data.len()
    &&& value != 0
    &&& le32(data, at + 16) + 8 * m <= usize::MAX
    &&& value < 0x8000_0000_0000_0000 ==> value + 2 <= usize::MAX
}

/// Whether a need arises.
pub open spec fn need_arises(
    data: Seq<u8>,
    sections: Seq<SectionHeader>,
    rva: int,
    size: int,
    need: ImportNeed,
) -> bool {
    match need {
        ImportNeed::Directory => true,
        ImportNeed::Library(i) => descriptor_stands(data, rva, size, i),
        ImportNeed::Thunk(i, k) => descriptor_stands(data, rva, size, i) && thunks_run(
            data,
            rva + 20 * i,
            k,
        ),
        ImportNeed::Slot(i, k) => {
            let thunk = thunks_of(data, rva + 20 * i) + 8 * k;
            &&& descriptor_stands(data, rva, size, i)
            &&& thunks_run(data, rva + 20 * i, k)
            &&& thunk + 8 <= data.len()
            &&& le64(data, thunk) != 0
        },
        ImportNeed::Name(i, k) => {
            let thunk = thunks_of(data, rva + 20 * i) + 8 * k;
            &&& descriptor_stands(data, rva, size, i)
            &&& thunks_run(data, rva + 20 * i, k)
            &&& thunk + 8 <= data.len()
            &&& 0 < le64(data, thunk) < 0x8000_0000_0000_0000
            &&& le32(data, rva + 20 * i + 16) + 8 * k <= usize::MAX
        },
        ImportNeed::Section(s) => {
            &&& 0 <= s < sections.len()
            &&& sections[s].characteristics & 0x2000_0000 != 0
            &&& exists|i: int| #[trigger] imports_something(data, rva, size, i)
        },
    }
}

/// Whether descriptor `i` is reached and its first lookup thunk is there and not zero.
pub open spec fn imports_something(data: Seq<u8>, rva: int, size: int, i: int) -> bool {
    let thunk = thunks_of(data, rva + 20 * i);
    &&& descriptor_stands(data, rva, size, i)
    &&& le32(data, rva + 20 * i + 16) != 0
    &&& thunk + 8 <= data.len()
    &&& le64(data, thunk) != 0
}

/// How many bytes a zero-terminated text at `from` takes; one where it has no end.
pub open spec fn text_extent(data: Seq<u8>, from: int, extent: int) -> bool {
    if exists|end: int| from <= end < data.len() && #[trigger] data[end] == 0 {
        &&& 1 <= extent
        &&& from + extent <= data.len()
        &&& data[from + extent - 1] == 0
        &&& forall|x: int| from <= x < from + extent - 1 ==> #[trigger] data[x] != 0
    } else {
        extent == 1
    }
}

/// Whether `[at, at + extent)` is what a need asks for.
pub open spec fn need_extent(
    data: Seq<u8>,
    sections: Seq<SectionHeader>,
    rva: int,
    size: int,
    need: ImportNeed,
    at: int,
    extent: int,
) -> bool {
    match need {
        ImportNeed::Directory => at == rva && extent == size,
        ImportNeed::Library(i) => at == le32(data, rva + 20 * i + 12) && text_extent(
            data,
            at,
            extent,
        ),
        ImportNeed::Thunk(i, k) => at == thunks_of(data, rva + 20 * i) + 8 * k && extent == 8,
        ImportNeed::Slot(i, k) => at == le32(data, rva + 20 * i + 16) + 8 * k && extent == 8,
        ImportNeed::Name(i, k) => at == le64(data, thunks_of(data, rva + 20 * i) + 8 * k)
            && text_extent(data, at + 2, extent - 2),
        ImportNeed::Section(s) => at == sections[s].virtual_address && at + extent == section_end(
            sections[s],
        ),
    }
}

/// Whether a range that is not available begins before `[at, at + extent)` ends and ends behind
/// its begin.
pub open spec fn touches(range: UnavailablePeRange, at: int, extent: int) -> bool {
    range.rva < at + extent && at < range.rva + range.size
}

/// The size of a terminated text is its extent.
proof fn lemma_text_extent(data: Seq<u8>, from: int, extent: int)
    requires
        0 <= from,
    ensures
        text_extent(data, from, extent) <==> extent == terminated_size(data, from),
{
    if from < data.len() {
        lemma_nul_index(data, from);
        let end = nul_index(data, from);
        if end < data.len() {
            assert(data[end] == 0);
            if text_extent(data, from, extent) {
                let last = from + extent - 1;
                if last < end {
                    assert(data[last] != 0);
                }
                if end < last {
                    assert(data[end] != 0);
                }
            }
        } else {
            assert forall|x: int| from <= x < data.len() implies #[trigger] data[x] != 0 by {}
        }
    }
}

/// Whether every unavailable range ends inside the address range.
pub open spec fn ranges_end(ranges: Seq<UnavailablePeRange>) -> bool {
    forall|u: int|
        0 <= u < ranges.len() ==> (#[trigger] ranges[u]).rva + ranges[u].size <= usize::MAX
}

/// The overlap that is found is the first range that touches.
proof fn lemma_overlap(ranges: Seq<UnavailablePeRange>, index: int, at: int, extent: int)
    requires
        ranges_end(ranges),
        0 <= index <= ranges.len(),
    ensures
        match overlapping_from(ranges, index, at, extent) {
            Some(range) => touches(range, at, extent) && exists|u: int|
                index <= u < ranges.len() && #[trigger] ranges[u] == range,
            None => forall|u: int|
                index <= u < ranges.len() ==> !touches(#[trigger] ranges[u], at, extent),
        },
    decreases ranges.len() - index,
{
    if index < ranges.len() {
        assert(ranges[index].rva + ranges[index].size <= usize::MAX);
        lemma_overlap(ranges, index + 1, at, extent);
    }
}

/// Whether no unavailable range touches `[at, at + extent)`.
pub open spec fn untouched(ranges: Seq<UnavailablePeRange>, at: int, extent: int) -> bool {
    forall|u: int| 0 <= u < ranges.len() ==> !touches(#[trigger] ranges[u], at, extent)
}

/// What holds of sizes and ranges where addresses have 64 bits.
pub open spec fn roomy(data: Seq<u8>, ranges: Seq<UnavailablePeRange>) -> bool {
    &&& usize::MAX >= 0xFFFF_FFFF_FFFF_FFFF
    &&& data.len() < 0x4000_0000_0000_0000
    &&& ranges_end(ranges)
}

/// The overlap that is found of a range in the address range.
proof fn lemma_unavailable(ranges: Seq<UnavailablePeRange>, at: int, extent: int)
    requires
        ranges_end(ranges),
        at + extent <= usize::MAX,
    ensures
        unavailable_overlap(ranges, at, extent) is None <==> untouched(ranges, at, extent),
        match unavailable_overlap(ranges, at, extent) {
            Some(range) => touches(range, at, extent) && ranges.contains(range),
            None => true,
        },
{
    lemma_overlap(ranges, 0, at, extent);
    match overlapping_from(ranges, 0, at, extent) {
        Some(range) => {
            let u = choose|u: int| 0 <= u < ranges.len() && #[trigger] ranges[u] == range;
            assert(touches(ranges[u], at, extent));
        },
        None => {},
    }
}

/// Whether what thunk `k` of the descriptor at `at` asks for is untouched.
spec fn thunk_untouched(
    data: Seq<u8>,
    ranges: Seq<UnavailablePeRange>,
    at: int,
    k: int,
) -> bool {
    let thunk = thunks_of(data, at) + 8 * k;
    let slot = le32(data, at + 16) + 8 * k;
    let value = le64(data, thunk) as int;
    &&& untouched(ranges, thunk, 8)
    &&& thunk + 8 <= data.len() && value != 0 ==> untouched(ranges, slot, 8)
    &&& thunk + 8 <= data.len() && 0 < value < 0x8000_0000_0000_0000 ==> untouched(
        ranges,
        value,
        2 + terminated_size(data, value + 2),
    )
}

/// The bounds on what a thunk asks for.
proof fn lemma_thunk_bounds(data: Seq<u8>, at: int, k: int)
    requires
        usize::MAX >= 0xFFFF_FFFF_FFFF_FFFF,
        data.len() < 0x4000_0000_0000_0000,
        thunks_run(data, at, k),
    ensures
        0 <= thunks_of(data, at) + 8 * k,
        thunks_of(data, at) + 8 * k + 8 <= usize::MAX,
        le32(data, at + 16) + 8 * k + 8 <= usize::MAX,
        ({
            let value = le64(data, thunks_of(data, at) + 8 * k) as int;
            value < 0x8000_0000_0000_0000 ==> value + 2 + terminated_size(data, value + 2)
                <= usize::MAX
        }),
{
    if k > 0 {
        assert(thunk_leads_on(data, at, k - 1));
    }
    let value = le64(data, thunks_of(data, at) + 8 * k) as int;
    if value + 2 < data.len() {
        lemma_nul_index(data, value + 2);
    }
}

/// A walk over thunks that finds nothing missing leaves all it reaches untouched.
proof fn lemma_walk_untouched(
    data: Seq<u8>,
    ranges: Seq<UnavailablePeRange>,
    at: int,
    from: int,
    seen: bool,
    k: int,
)
    requires
        roomy(data, ranges),
        0 <= from <= k,
        thunks_run(data, at, k),
        walk_thunks(data, ranges, descriptor_bytes(data, at), from, seen).unavailable is None,
    ensures
        thunk_untouched(data, ranges, at, k),
    decreases k - from,
{
    assert(thunks_run(data, at, from));
    lemma_thunk_bounds(data, at, from);
    let thunk = thunks_of(data, at) + 8 * from;
    let slot = le32(data, at + 16) + 8 * from;
    let value = le64(data, thunk) as int;
    assert(from * 8 == 8 * from);
    lemma_unavailable(ranges, thunk, 8);
    lemma_unavailable(ranges, slot, 8);
    if value < 0x8000_0000_0000_0000 {
        lemma_unavailable(ranges, value, 2 + terminated_size(data, value + 2));
    }
    if from < k {
        assert(thunk_leads_on(data, at, from));
        lemma_walk_untouched(data, ranges, at, from + 1, true, k);
    }
}

/// A walk over thunks that finds a range missing was at a thunk that asks for it.
proof fn lemma_walk_touched(
    data: Seq<u8>,
    ranges: Seq<UnavailablePeRange>,
    at: int,
    from: int,
    seen: bool,
) -> (place: (int, int))
    requires
        roomy(data, ranges),
        thunks_run(data, at, from),
        walk_thunks(data, ranges, descriptor_bytes(data, at), from, seen).unavailable is Some,
    ensures
        ({
            let range = walk_thunks(
                data,
                ranges,
                descriptor_bytes(data, at),
                from,
                seen,
            ).unavailable->0;
            let (k, which) = place;
            let thunk = thunks_of(data, at) + 8 * k;
            let value = le64(data, thunk) as int;
            &&& ranges.contains(range)
            &&& thunks_run(data, at, k)
            &&& 0 <= which <= 2
            &&& which == 0 ==> touches(range, thunk, 8)
            &&& which >= 1 ==> thunk + 8 <= data.len() && value != 0
            &&& which == 1 ==> touches(range, le32(data, at + 16) + 8 * k, 8)
            &&& which == 2 ==> value < 0x8000_0000_0000_0000 && touches(
                range,
                value,
                2 + terminated_size(data, value + 2),
            )
        }),
    decreases data.len() - (thunks_of(data, at) + 8 * from),
{
    lemma_thunk_bounds(data, at, from);
    let thunk = thunks_of(data, at) + 8 * from;
    let slot = le32(data, at + 16) + 8 * from;
    let value = le64(data, thunk) as int;
    assert(from * 8 == 8 * from);
    lemma_unavailable(ranges, thunk, 8);
    lemma_unavailable(ranges, slot, 8);
    if value < 0x8000_0000_0000_0000 {
        lemma_unavailable(ranges, value, 2 + terminated_size(data, value + 2));
    }
    if unavailable_overlap(ranges, thunk, 8) is Some {
        (from, 0)
    } else if unavailable_overlap(ranges, slot, 8) is Some {
        (from, 1)
    } else if value < 0x8000_0000_0000_0000 && unavailable_overlap(
        ranges,
        value,
        2 + terminated_size(data, value + 2),
    ) is Some {
        (from, 2)
    } else {
        assert(thunk_leads_on(data, at, from));
        lemma_walk_touched(data, ranges, at, from + 1, true)
    }
}

/// What has been seen stays seen.
proof fn lemma_walk_sees(
    data: Seq<u8>,
    ranges: Seq<UnavailablePeRange>,
    at: int,
    from: int,
)
    requires
        roomy(data, ranges),
        thunks_run(data, at, from),
    ensures
        walk_thunks(data, ranges, descriptor_bytes(data, at), from, true).has_targets,
    decreases data.len() - (thunks_of(data, at) + 8 * from),
{
    lemma_thunk_bounds(data, at, from);
    assert(from * 8 == 8 * from);
    let thunk = thunks_of(data, at) + 8 * from;
    if thunk + 8 <= data.len() && thunk_leads_on(data, at, from) {
        lemma_walk_sees(data, ranges, at, from + 1);
    }
}

/// Whether a walk over all thunks of a descriptor sees an import.
proof fn lemma_walk_sees_first(
    data: Seq<u8>,
    ranges: Seq<UnavailablePeRange>,
    at: int,
    seen: bool,
)
    requires
        roomy(data, ranges),
        le32(data, at + 16) != 0,
        walk_thunks(data, ranges, descriptor_bytes(data, at), 0, seen).unavailable is None,
    ensures
        walk_thunks(data, ranges, descriptor_bytes(data, at), 0, seen).has_targets <==> seen || (
        thunks_of(data, at) + 8 <= data.len() && le64(data, thunks_of(data, at)) != 0),
{
    assert(thunks_run(data, at, 0));
    lemma_thunk_bounds(data, at, 0);
    if seen {
        lemma_walk_sees(data, ranges, at, 0);
    } else if thunk_leads_on(data, at, 0) {
        assert(thunks_run(data, at, 1));
        lemma_walk_sees(data, ranges, at, 1);
    }
}

/// The bounds on what a library name asks for.
proof fn lemma_library_bounds(data: Seq<u8>, at: int)
    requires
        usize::MAX >= 0xFFFF_FFFF_FFFF_FFFF,
        data.len() < 0x4000_0000_0000_0000,
    ensures
        le32(data, at + 12) + terminated_size(data, le32(data, at + 12) as int) <= usize::MAX,
{
    if le32(data, at + 12) < data.len() {
        lemma_nul_index(data, le32(data, at + 12) as int);
    }
}

/// A walk over descriptors that finds nothing missing leaves all it reaches untouched.
proof fn lemma_descriptors_untouched(
    data: Seq<u8>,
    ranges: Seq<UnavailablePeRange>,
    table: ImportDescriptorTable,
    from: int,
    seen: bool,
    size: int,
    i: int,
)
    requires
        roomy(data, ranges),
        0 <= from <= i < table.count,
        table.count == size / 20,
        descriptor_stands(data, table.start as int, size, i),
        walk_descriptors(data, ranges, table, from, seen).unavailable is None,
    ensures
        ({
            let at = table.start + 20 * i;
            let name = le32(data, at + 12) as int;
            &&& untouched(ranges, name, terminated_size(data, name))
            &&& forall|k: int|
                #![trigger thunks_run(data, at, k)]
                thunks_run(data, at, k) ==> thunk_untouched(data, ranges, at, k)
            &&& imports_something(data, table.start as int, size, i) ==> walk_descriptors(
                data,
                ranges,
                table,
                from,
                seen,
            ).has_targets
        }),
    decreases i - from,
{
    let here = table.start + 20 * from;
    assert(from * 20 == 20 * from);
    assert(!(le32(data, here) == 0 && le32(data, here + 12) == 0 && le32(data, here + 16) == 0));
    let name = le32(data, here + 12) as int;
    lemma_library_bounds(data, here);
    lemma_unavailable(ranges, name, terminated_size(data, name));
    let d = descriptor_bytes(data, here);
    let walked = walk_thunks(data, ranges, d, 0, seen);
    if le32(data, here + 16) != 0 {
        lemma_walk_sees_first(data, ranges, here, seen);
    }
    if from == i {
        assert forall|k: int|
            #![trigger thunks_run(data, here, k)]
            thunks_run(data, here, k) implies thunk_untouched(data, ranges, here, k) by {
            lemma_walk_untouched(data, ranges, here, 0, seen, k);
        }
        if imports_something(data, table.start as int, size, i) {
            lemma_descriptors_see(data, ranges, table, from + 1);
        }
    } else {
        let next = if le32(data, here + 16) != 0 {
            walked.has_targets
        } else {
            seen
        };
        lemma_descriptors_untouched(data, ranges, table, from + 1, next, size, i);
    }
}

/// What has been seen stays seen.
proof fn lemma_descriptors_see(
    data: Seq<u8>,
    ranges: Seq<UnavailablePeRange>,
    table: ImportDescriptorTable,
    from: int,
)
    requires
        roomy(data, ranges),
    ensures
        walk_descriptors(data, ranges, table, from, true).has_targets,
    decreases table.count - from,
{
    let here = table.start + 20 * from;
    assert(from * 20 == 20 * from);
    if from < table.count {
        if le32(data, here + 16) != 0 {
            assert(thunks_run(data, here, 0));
            lemma_walk_sees(data, ranges, here, 0);
        }
        lemma_descriptors_see(data, ranges, table, from + 1);
    }
}

/// A walk over descriptors that finds a range missing was at a descriptor that asks for it.
proof fn lemma_descriptors_touched(
    data: Seq<u8>,
    ranges: Seq<UnavailablePeRange>,
    table: ImportDescriptorTable,
    from: int,
    seen: bool,
    size: int,
) -> (place: (int, int, int))
    requires
        roomy(data, ranges),
        0 <= from,
        table.count == size / 20,
        0 <= size,
        forall|j: int|
            0 <= j < from ==> !(#[trigger] le32(data, table.start + 20 * j) == 0 && le32(
                data,
                table.start + 20 * j + 12,
            ) == 0 && le32(data, table.start + 20 * j + 16) == 0),
        walk_descriptors(data, ranges, table, from, seen).unavailable is Some,
    ensures
        ({
            let range = walk_descriptors(data, ranges, table, from, seen).unavailable->0;
            let (i, k, which) = place;
            let at = table.start + 20 * i;
            let name = le32(data, at + 12) as int;
            let thunk = thunks_of(data, at) + 8 * k;
            let value = le64(data, thunk) as int;
            &&& ranges.contains(range)
            &&& descriptor_stands(data, table.start as int, size, i)
            &&& 0 <= which <= 3
            &&& which == 3 ==> touches(range, name, terminated_size(data, name))
            &&& which < 3 ==> thunks_run(data, at, k)
            &&& which == 0 ==> touches(range, thunk, 8)
            &&& which == 1 || which == 2 ==> thunk + 8 <= data.len() && value != 0
            &&& which == 1 ==> touches(range, le32(data, at + 16) + 8 * k, 8)
            &&& which == 2 ==> value < 0x8000_0000_0000_0000 && touches(
                range,
                value,
                2 + terminated_size(data, value + 2),
            )
        }),
    decreases table.count - from,
{
    let here = table.start + 20 * from;
    assert(from * 20 == 20 * from);
    let name = le32(data, here + 12) as int;
    lemma_library_bounds(data, here);
    lemma_unavailable(ranges, name, terminated_size(data, name));
    let d = descriptor_bytes(data, here);
    let walked = walk_thunks(data, ranges, d, 0, seen);
    assert(from < table.count);
    if unavailable_overlap(ranges, name, terminated_size(data, name)) is Some {
        (from, 0, 3)
    } else if le32(data, here + 16) != 0 && walked.unavailable is Some {
        assert(thunks_run(data, here, 0));
        let (k, which) = lemma_walk_touched(data, ranges, here, 0, seen);
        (from, k, which)
    } else {
        let next = if le32(data, here + 16) != 0 {
            walked.has_targets
        } else {
            seen
        };
        lemma_descriptors_touched(data, ranges, table, from + 1, next, size)
    }
}

/// A walk over descriptors that saw an import reached a descriptor with one.
proof fn lemma_descriptors_saw(
    data: Seq<u8>,
    ranges: Seq<UnavailablePeRange>,
    table: ImportDescriptorTable,
    from: int,
    size: int,
) -> (i: int)
    requires
        roomy(data, ranges),
        0 <= from,
        table.count == size / 20,
        0 <= size,
        forall|j: int|
            0 <= j < from ==> !(#[trigger] le32(data, table.start + 20 * j) == 0 && le32(
                data,
                table.start + 20 * j + 12,
            ) == 0 && le32(data, table.start + 20 * j + 16) == 0),
        walk_descriptors(data, ranges, table, from, false).unavailable is None,
        walk_descriptors(data, ranges, table, from, false).has_targets,
    ensures
        imports_something(data, table.start as int, size, i),
    decreases table.count - from,
{
    let here = table.start + 20 * from;
    assert(from * 20 == 20 * from);
    let d = descriptor_bytes(data, here);
    let walked = walk_thunks(data, ranges, d, 0, false);
    assert(from < table.count);
    if le32(data, here + 16) != 0 {
        lemma_walk_sees_first(data, ranges, here, false);
        if walked.has_targets {
            from
        } else {
            lemma_descriptors_saw(data, ranges, table, from + 1, size)
        }
    } else {
        lemma_descriptors_saw(data, ranges, table, from + 1, size)
    }
}

/// The executable sections from `index` on.
proof fn lemma_sections_untouched(
    sections: Seq<SectionHeader>,
    ranges: Seq<UnavailablePeRange>,
    index: int,
) -> (s: int)
    requires
        usize::MAX >= 0xFFFF_FFFF_FFFF_FFFF,
        ranges_end(ranges),
        0 <= index <= sections.len(),
    ensures
        match executable_overlap(sections, ranges, index) {
            None => forall|s: int|
                index <= s < sections.len() && (#[trigger] sections[s]).characteristics
                    & 0x2000_0000 != 0 ==> untouched(
                    ranges,
                    sections[s].virtual_address as int,
                    section_end(sections[s]) - sections[s].virtual_address,
                ),
            Some(range) => {
                &&& index <= s < sections.len()
                &&& sections[s].characteristics & 0x2000_0000 != 0
                &&& ranges.contains(range)
                &&& touches(
                    range,
                    sections[s].virtual_address as int,
                    section_end(sections[s]) - sections[s].virtual_address,
                )
            },
        },
    decreases sections.len() - index,
{
    if index < sections.len() {
        let start = sections[index].virtual_address as int;
        let extent = section_end(sections[index]) - start;
        lemma_unavailable(ranges, start, extent);
        if sections[index].characteristics & 0x2000_0000 != 0 && unavailable_overlap(
            ranges,
            start,
            extent,
        ) is Some {
            index
        } else {
            lemma_sections_untouched(sections, ranges, index + 1)
        }
    } else {
        index
    }
}

/// Where nothing is reported missing, everything that collecting imports needs is available.
pub proof fn law_reported_complete_is_available(
    snapshot: ValidatedPeSnapshot,
    rva: int,
    size: int,
    need: ImportNeed,
    at: int,
    extent: int,
)
    requires
        roomy(snapshot.bytes@, snapshot.unavailable_ranges@),
        imports_declared(snapshot.bytes@, snapshot.pe, rva, size),
        unavailable_import_range(snapshot) is None,
        need_arises(snapshot.bytes@, snapshot.pe.sections@, rva, size, need),
        need_extent(snapshot.bytes@, snapshot.pe.sections@, rva, size, need, at, extent),
    ensures
        untouched(snapshot.unavailable_ranges@, at, extent),
{
    let data = snapshot.bytes@;
    let ranges = snapshot.unavailable_ranges@;
    let sections = snapshot.pe.sections@;
    if ranges.len() > 0 {
        lemma_unavailable(ranges, rva, size);
        let table = ImportDescriptorTable { start: rva as usize, count: (size / 20) as usize };
        match need {
            ImportNeed::Directory => {},
            ImportNeed::Library(i) => {
                lemma_descriptors_untouched(data, ranges, table, 0, false, size, i);
                lemma_text_extent(data, at, extent);
            },
            ImportNeed::Thunk(i, k) => {
                lemma_descriptors_untouched(data, ranges, table, 0, false, size, i);
                assert(thunk_untouched(data, ranges, rva + 20 * i, k));
            },
            ImportNeed::Slot(i, k) => {
                lemma_descriptors_untouched(data, ranges, table, 0, false, size, i);
                assert(thunk_untouched(data, ranges, rva + 20 * i, k));
            },
            ImportNeed::Name(i, k) => {
                lemma_descriptors_untouched(data, ranges, table, 0, false, size, i);
                assert(thunk_untouched(data, ranges, rva + 20 * i, k));
                lemma_text_extent(data, at + 2, extent - 2);
            },
            ImportNeed::Section(s) => {
                let i = choose|i: int| #[trigger] imports_something(data, rva, size, i);
                lemma_descriptors_untouched(data, ranges, table, 0, false, size, i);
                let _ = lemma_sections_untouched(sections, ranges, 0);
                assert(sections[s].characteristics & 0x2000_0000 != 0);
            },
        }
    }
}

/// A range that is reported missing is unavailable, and collecting imports needs a byte range that
/// it touches.
pub proof fn law_reported_missing_is_needed(
    snapshot: ValidatedPeSnapshot,
    rva: int,
    size: int,
) -> (found: (ImportNeed, int, int))
    requires
        roomy(snapshot.bytes@, snapshot.unavailable_ranges@),
        imports_declared(snapshot.bytes@, snapshot.pe, rva, size),
        unavailable_import_range(snapshot) is Some,
    ensures
        ({
            let range = unavailable_import_range(snapshot)->0;
            let (need, at, extent) = found;
            &&& snapshot.unavailable_ranges@.contains(range)
            &&& need_arises(snapshot.bytes@, snapshot.pe.sections@, rva, size, need)
            &&& need_extent(
                snapshot.bytes@,
                snapshot.pe.sections@,
                rva,
                size,
                need,
                at,
                extent,
            )
            &&& touches(range, at, extent)
        }),
{
    let data = snapshot.bytes@;
    let ranges = snapshot.unavailable_ranges@;
    let sections = snapshot.pe.sections@;
    lemma_unavailable(ranges, rva, size);
    let table = ImportDescriptorTable { start: rva as usize, count: (size / 20) as usize };
    let walked = walk_descriptors(data, ranges, table, 0, false);
    if unavailable_overlap(ranges, rva, size) is Some {
        (ImportNeed::Directory, rva, size)
    } else if walked.unavailable is Some {
        let (i, k, which) = lemma_descriptors_touched(data, ranges, table, 0, false, size);
        let at = rva + 20 * i;
        let name = le32(data, at + 12) as int;
        let thunk = thunks_of(data, at) + 8 * k;
        let value = le64(data, thunk) as int;
        if which == 3 {
            lemma_text_extent(data, name, terminated_size(data, name));
            (ImportNeed::Library(i), name, terminated_size(data, name))
        } else if which == 0 {
            (ImportNeed::Thunk(i, k), thunk, 8)
        } else if which == 1 {
            (ImportNeed::Slot(i, k), le32(data, at + 16) + 8 * k, 8)
        } else {
            lemma_thunk_bounds(data, at, k);
            lemma_text_extent(data, value + 2, terminated_size(data, value + 2));
            (ImportNeed::Name(i, k), value, 2 + terminated_size(data, value + 2))
        }
    } else {
        let i = lemma_descriptors_saw(data, ranges, table, 0, size);
        let s = lemma_sections_untouched(sections, ranges, 0);
        assert(imports_something(data, rva, size, i));
        (
            ImportNeed::Section(s),
            sections[s].virtual_address as int,
            section_end(sections[s]) - sections[s].virtual_address,
        )
    }
}

} // verus!
