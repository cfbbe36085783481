//! Breakpoint-related opcodes, stated over the bytes of the executable sections.

use vstd::prelude::*;

use crate::laws::patterns::{all_available, in_executable_bytes};
use crate::opcode::catalog::{
    catalog, first_opcode_offset, opcode_match, trap_at, CatalogEntry, OpcodeView,
};
use crate::opcode::raw::{
    hits_of, law_every_raw_occurrence_is_listed, matched_size, occurs, raw_hit, raw_hits,
    raw_hits_at, raw_hits_in, RawHitView,
};
use crate::pe::types::{SectionHeader, UnavailablePeRange, ValidatedPeSnapshot};
use crate::scan::{scan_end, scan_size, scanned, scanned_bytes};

verus! {

/// How many bytes the opcode at a catalog position takes.
pub open spec fn opcode_size(position: int) -> int {
    if position <= 1 {
        1
    } else if position <= 3 {
        2
    } else {
        3
    }
}

/// Whether the opcode at a catalog position stands at `at`: `CC`, `F1`, `CD 01`, `CD 03`, `0F 21`
/// or `0F 23`, the last two with a register form behind them.
pub open spec fn opcode_stands(bytes: Seq<u8>, at: int, position: int) -> bool {
    &&& 0 <= at
    &&& 0 <= position < 6
    &&& at + opcode_size(position) <= bytes.len()
    &&& if position == 0 {
        bytes[at] == 0xCC
    } else if position == 1 {
        bytes[at] == 0xF1
    } else if position == 2 {
        bytes[at] == 0xCD && bytes[at + 1] == 0x01
    } else if position == 3 {
        bytes[at] == 0xCD && bytes[at + 1] == 0x03
    } else if position == 4 {
        bytes[at] == 0x0F && bytes[at + 1] == 0x21 && bytes[at + 2] >= 0xC0
    } else {
        bytes[at] == 0x0F && bytes[at + 1] == 0x23 && bytes[at + 2] >= 0xC0
    }
}

/// The catalog has six opcodes, with these names.
pub proof fn law_catalog_names()
    ensures
        catalog().len() == 6,
        catalog()[0].name == "INT3_BREAKPOINT"@,
        catalog()[1].name == "INT1_ICEBP_DEBUG_TRAP"@,
        catalog()[2].name == "INT_VECTOR_1_DEBUG_INTERRUPT"@,
        catalog()[3].name == "INT_VECTOR_3_BREAKPOINT"@,
        catalog()[4].name == "MOV_FROM_DEBUG_REGISTER"@,
        catalog()[5].name == "MOV_TO_DEBUG_REGISTER"@,
{
}

/// A register form is a byte from 0xC0 on.
proof fn lemma_register_form(byte: u8)
    ensures
        byte & 0xC0 == 0xC0 <==> byte >= 0xC0,
{
    assert(byte & 0xC0 == 0xC0 <==> byte >= 0xC0) by (bit_vector);
}

/// A catalog opcode matches exactly where its bytes stand, and gives the register form that it
/// takes.
pub proof fn law_opcode_matches(bytes: Seq<u8>, at: int, position: int)
    requires
        0 <= at,
        0 <= position < 6,
    ensures
        opcode_match(bytes, at, catalog()[position]) is Some <==> opcode_stands(
            bytes,
            at,
            position,
        ),
        opcode_stands(bytes, at, position) && position < 4 ==> opcode_match(
            bytes,
            at,
            catalog()[position],
        ) == Some(None::<u8>),
        opcode_stands(bytes, at, position) && position >= 4 ==> opcode_match(
            bytes,
            at,
            catalog()[position],
        ) == Some(Some(bytes[at + 2])),
        matched_size(catalog()[position]) == opcode_size(position),
{
    let opcode = catalog()[position];
    let size = opcode.bytecode.len() as int;
    if at + size <= bytes.len() {
        let part = bytes.subrange(at, at + size);
        assert(part[0] == bytes[at]);
        if size == 2 {
            assert(part[1] == bytes[at + 1]);
        }
        if opcode_stands(bytes, at, position) {
            assert(part =~= opcode.bytecode);
        } else if part =~= opcode.bytecode {
            assert(part[0] == opcode.bytecode[0]);
            if size == 2 {
                assert(part[1] == opcode.bytecode[1]);
            }
        }
    }
    if at + size < bytes.len() {
        lemma_register_form(bytes[at + size]);
    }
}

/// The trap that bytes begin with: `CD 03`, `CD 01`, `CC`, `F1`, or none.
pub proof fn law_trap_bytes(bytes: Seq<u8>)
    ensures
        trap_at(bytes) == Some(CatalogEntry::IntVector3) <==> bytes.len() >= 2 && bytes[0] == 0xCD
            && bytes[1] == 0x03,
        trap_at(bytes) == Some(CatalogEntry::IntVector1) <==> bytes.len() >= 2 && bytes[0] == 0xCD
            && bytes[1] == 0x01,
        trap_at(bytes) == Some(CatalogEntry::Int3Breakpoint) <==> bytes.len() >= 1 && bytes[0]
            == 0xCC,
        trap_at(bytes) == Some(CatalogEntry::Int1DebugTrap) <==> bytes.len() >= 1 && bytes[0]
            == 0xF1,
        trap_at(bytes) != Some(CatalogEntry::MovFromDebugRegister),
        trap_at(bytes) != Some(CatalogEntry::MovToDebugRegister),
{
    let three = seq![0xCDu8, 0x03u8];
    let one = seq![0xCDu8, 0x01u8];
    let int3 = seq![0xCCu8];
    let int1 = seq![0xF1u8];
    assert(three[0] == 0xCD && three[1] == 0x03 && one[0] == 0xCD && one[1] == 0x01 && int3[0]
        == 0xCC && int1[0] == 0xF1);
    if bytes.len() >= 1 {
        let first = bytes.subrange(0, 1);
        assert(first[0] == bytes[0]);
        if bytes[0] == 0xCC {
            assert(first =~= int3);
        }
        if bytes[0] == 0xF1 {
            assert(first =~= int1);
        }
    }
    if bytes.len() >= 2 {
        let pair = bytes.subrange(0, 2);
        assert(pair[0] == bytes[0] && pair[1] == bytes[1]);
        if bytes[0] == 0xCD && bytes[1] == 0x03 {
            assert(pair =~= three);
        }
        if bytes[0] == 0xCD && bytes[1] == 0x01 {
            assert(pair =~= one);
        }
    }
}

/// The first offset at which an opcode matches, from `from` on.
proof fn lemma_first_offset(bytes: Seq<u8>, opcode: OpcodeView, from: int)
    requires
        0 <= from,
        bytes.len() <= usize::MAX,
    ensures
        match first_opcode_offset(bytes, opcode, from) {
            Some(at) => {
                &&& from <= at < bytes.len()
                &&& opcode_match(bytes, at as int, opcode) is Some
                &&& forall|x: int|
                    from <= x < at ==> #[trigger] opcode_match(bytes, x, opcode) is None
            },
            None => forall|x: int|
                from <= x < bytes.len() ==> #[trigger] opcode_match(bytes, x, opcode) is None,
        },
    decreases bytes.len() - from,
{
    if from < bytes.len() && opcode_match(bytes, from, opcode) is None {
        lemma_first_offset(bytes, opcode, from + 1);
    }
}

/// Searching an instruction for a catalog opcode gives the first place at which its bytes stand,
/// and nothing exactly where they stand nowhere.
pub proof fn law_first_opcode_offset(bytes: Seq<u8>, position: int)
    requires
        0 <= position < 6,
        bytes.len() <= usize::MAX,
    ensures
        match first_opcode_offset(bytes, catalog()[position], 0) {
            Some(at) => {
                &&& opcode_stands(bytes, at as int, position)
                &&& forall|x: int| 0 <= x < at ==> !(#[trigger] opcode_stands(bytes, x, position))
            },
            None => forall|x: int| !(#[trigger] opcode_stands(bytes, x, position)),
        },
{
    let opcode = catalog()[position];
    lemma_first_offset(bytes, opcode, 0);
    assert forall|x: int| 0 <= x implies (opcode_match(bytes, x, opcode) is Some
        <==> #[trigger] opcode_stands(bytes, x, position)) by {
        law_opcode_matches(bytes, x, position);
    }
}

/// Whether an opcode stands over available bytes of an executable section.
pub open spec fn opcode_occurs(
    snapshot: ValidatedPeSnapshot,
    section: SectionHeader,
    at: int,
    position: int,
) -> bool {
    &&& in_executable_bytes(
        section,
        snapshot.bytes@.len() as int,
        at,
        opcode_size(position),
    )
    &&& all_available(snapshot.unavailable_ranges@, at, opcode_size(position))
    &&& opcode_stands(snapshot.bytes@, at, position)
}

/// Two ways to look at unavailable bytes.
proof fn lemma_all_available(unavailable: Seq<UnavailablePeRange>, at: int, size: int)
    requires
        0 < size,
    ensures
        all_available(unavailable, at, size) <==> crate::ranges::avoids_all(unavailable, at, size),
{
    if all_available(unavailable, at, size) {
        assert forall|u: int| 0 <= u < unavailable.len() implies !crate::ranges::overlap(
            at,
            size,
            (#[trigger] unavailable[u]).rva as int,
            unavailable[u].size as int,
        ) by {
            let x = if at >= unavailable[u].rva {
                at
            } else {
                unavailable[u].rva as int
            };
            let end = crate::laws::patterns::shifted(unavailable[u], x);
        }
    }
}

/// Two ways to look at an occurrence.
proof fn lemma_occurs(
    snapshot: ValidatedPeSnapshot,
    section: SectionHeader,
    at: int,
    position: int,
)
    requires
        snapshot.bytes@.len() <= usize::MAX,
        0 <= position < 6,
        section.virtual_address <= at,
    ensures
        opcode_occurs(snapshot, section, at, position) <==> scanned(
            section,
            snapshot.bytes@.len() as int,
        ) && at - section.virtual_address < scan_size(section, snapshot.bytes@.len() as int)
            && occurs(snapshot, section, at - section.virtual_address, catalog()[position]),
        scanned(section, snapshot.bytes@.len() as int) && opcode_occurs(
            snapshot,
            section,
            at,
            position,
        ) ==> opcode_match(
            scanned_bytes(snapshot.bytes@, section),
            at - section.virtual_address,
            catalog()[position],
        ) == opcode_match(snapshot.bytes@, at, catalog()[position]),
{
    let len = snapshot.bytes@.len() as int;
    let offset = at - section.virtual_address;
    let haystack = scanned_bytes(snapshot.bytes@, section);
    law_opcode_matches(haystack, offset, position);
    law_opcode_matches(snapshot.bytes@, at, position);
    lemma_all_available(snapshot.unavailable_ranges@, at, opcode_size(position));
    if scanned(section, len) {
        assert(haystack.len() == scan_end(section, len) - section.virtual_address);
        assert(forall|x: int|
            0 <= x < haystack.len() ==> haystack[x] == snapshot.bytes@[section.virtual_address
                + x]);
    }
}

/// Whether a hit is the occurrence of the opcode at a catalog position at `at` of section `i`.
pub open spec fn hit_says(
    base: usize,
    snapshot: ValidatedPeSnapshot,
    i: int,
    at: int,
    position: int,
    hit: RawHitView,
) -> bool {
    &&& hit.opcode == catalog()[position]
    &&& hit.rva == at
    &&& hit.section_index == i
    &&& position < 4 ==> hit.modrm is None
    &&& position >= 4 ==> hit.modrm == Some(snapshot.bytes@[at + 2])
    &&& hit.file_offset == snapshot.pe.file_offset(at)
    &&& match hit.address {
        Some(address) => address == base + at,
        None => base + at > usize::MAX,
    }
}

/// Every opcode in an executable section is listed, those inside another instruction included.
pub proof fn law_every_opcode_is_listed(
    base: usize,
    snapshot: ValidatedPeSnapshot,
    i: int,
    at: int,
    position: int,
) -> (n: int)
    requires
        0 <= i < snapshot.pe.sections@.len() <= usize::MAX,
        0 <= position < 6,
        opcode_occurs(snapshot, snapshot.pe.sections@[i], at, position),
    ensures
        ({
            let all = raw_hits(base, snapshot, snapshot.pe.sections@.len() as int);
            &&& 0 <= n < all.len()
            &&& hit_says(base, snapshot, i, at, position, all[n])
        }),
{
    let section = snapshot.pe.sections@[i];
    let offset = at - section.virtual_address;
    let opcode = catalog()[position];
    lemma_occurs(snapshot, section, at, position);
    law_opcode_matches(snapshot.bytes@, at, position);
    law_every_raw_occurrence_is_listed(base, snapshot, i, offset, position);
    let all = raw_hits(base, snapshot, snapshot.pe.sections@.len() as int);
    let hit = raw_hit(base, snapshot, i, offset, opcode);
    all.index_of(hit)
}

/// A listed occurrence at an offset is of a catalog opcode.
proof fn lemma_hit_at(
    base: usize,
    snapshot: ValidatedPeSnapshot,
    i: int,
    offset: int,
    count: int,
    n: int,
) -> (position: int)
    requires
        0 <= count <= 6,
        0 <= n < raw_hits_at(base, snapshot, i, offset, count).len(),
    ensures
        0 <= position < count,
        occurs(snapshot, snapshot.pe.sections@[i], offset, catalog()[position]),
        raw_hits_at(base, snapshot, i, offset, count)[n] == raw_hit(
            base,
            snapshot,
            i,
            offset,
            catalog()[position],
        ),
    decreases count,
{
    let before = raw_hits_at(base, snapshot, i, offset, count - 1);
    if n < before.len() {
        lemma_hit_at(base, snapshot, i, offset, count - 1, n)
    } else {
        count - 1
    }
}

/// A listed occurrence in a section has an offset there.
proof fn lemma_hit_in(
    base: usize,
    snapshot: ValidatedPeSnapshot,
    i: int,
    offsets: int,
    n: int,
) -> (place: (int, int))
    requires
        0 <= n < raw_hits_in(base, snapshot, i, offsets).len(),
    ensures
        ({
            let (offset, position) = place;
            &&& 0 <= offset < offsets
            &&& 0 <= position < 6
            &&& occurs(snapshot, snapshot.pe.sections@[i], offset, catalog()[position])
            &&& raw_hits_in(base, snapshot, i, offsets)[n] == raw_hit(
                base,
                snapshot,
                i,
                offset,
                catalog()[position],
            )
        }),
    decreases offsets,
{
    let before = raw_hits_in(base, snapshot, i, offsets - 1);
    if n < before.len() {
        lemma_hit_in(base, snapshot, i, offsets - 1, n)
    } else {
        let position = lemma_hit_at(base, snapshot, i, offsets - 1, 6, n - before.len());
        (offsets - 1, position)
    }
}

/// A listed occurrence has a section.
proof fn lemma_hit_place(base: usize, snapshot: ValidatedPeSnapshot, count: int, n: int) -> (place: (
    int,
    int,
    int,
))
    requires
        0 <= count <= snapshot.pe.sections@.len(),
        0 <= n < raw_hits(base, snapshot, count).len(),
    ensures
        ({
            let (i, offset, position) = place;
            let section = snapshot.pe.sections@[i];
            &&& 0 <= i < count
            &&& scanned(section, snapshot.bytes@.len() as int)
            &&& 0 <= offset < scan_size(section, snapshot.bytes@.len() as int)
            &&& 0 <= position < 6
            &&& occurs(snapshot, section, offset, catalog()[position])
            &&& raw_hits(base, snapshot, count)[n] == raw_hit(
                base,
                snapshot,
                i,
                offset,
                catalog()[position],
            )
        }),
    decreases count,
{
    let before = raw_hits(base, snapshot, count - 1);
    if n < before.len() {
        lemma_hit_place(base, snapshot, count - 1, n)
    } else {
        let size = scan_size(snapshot.pe.sections@[count - 1], snapshot.bytes@.len() as int);
        let (offset, position) = lemma_hit_in(base, snapshot, count - 1, size, n - before.len());
        (count - 1, offset, position)
    }
}

/// Nothing else is listed.
pub proof fn law_listed_opcodes_stand(base: usize, snapshot: ValidatedPeSnapshot, n: int) -> (place:
    (int, int, int))
    requires
        snapshot.bytes@.len() <= usize::MAX,
        snapshot.pe.sections@.len() <= usize::MAX,
        0 <= n < raw_hits(base, snapshot, snapshot.pe.sections@.len() as int).len(),
    ensures
        ({
            let (i, at, position) = place;
            &&& 0 <= i < snapshot.pe.sections@.len()
            &&& 0 <= position < 6
            &&& opcode_occurs(snapshot, snapshot.pe.sections@[i], at, position)
            &&& hit_says(
                base,
                snapshot,
                i,
                at,
                position,
                raw_hits(base, snapshot, snapshot.pe.sections@.len() as int)[n],
            )
        }),
{
    let count = snapshot.pe.sections@.len() as int;
    let (i, offset, position) = lemma_hit_place(base, snapshot, count, n);
    let at = snapshot.pe.sections@[i].virtual_address + offset;
    lemma_occurs(snapshot, snapshot.pe.sections@[i], at, position);
    law_opcode_matches(snapshot.bytes@, at, position);
    (i, at, position)
}

/// The number of hits of an opcode is the number of places among the hits that hold it.
pub proof fn law_hits_are_counted(hits: Seq<RawHitView>, opcode: OpcodeView)
    ensures
        hits_of(hits, opcode) == Set::new(
            |n: int| 0 <= n < hits.len() && hits[n].opcode == opcode,
        ).len(),
        Set::new(|n: int| 0 <= n < hits.len() && hits[n].opcode == opcode).finite(),
    decreases hits.len(),
{
    let places = Set::new(|n: int| 0 <= n < hits.len() && hits[n].opcode == opcode);
    if hits.len() == 0 {
        assert(places =~= Set::empty());
    } else {
        let shorter = hits.drop_last();
        let before = Set::new(|n: int| 0 <= n < shorter.len() && shorter[n].opcode == opcode);
        law_hits_are_counted(shorter, opcode);
        if hits.last().opcode == opcode {
            assert(places =~= before.insert(hits.len() - 1));
        } else {
            assert(places =~= before);
        }
    }
}

} // verus!
