//! Signature matches, stated over the bytes of the executable sections.

use vstd::prelude::*;

use crate::laws::locate::section_end;
use crate::patterns::{
    first_startup_match, law_pattern_offsets_are_complete, pattern_found, pattern_offsets,
    pattern_views, section_matches, signature_matches, PePatternMatch, Signature,
};
use crate::pe::types::{SectionHeader, UnavailablePeRange, ValidatedPeSnapshot};
use crate::scan::{executable_complete, scan_end, scanned, scanned_bytes};
use crate::sorting::ordered;

verus! {

/// Whether `[at, at + size)` holds bytes of an executable section that are in the data.
pub open spec fn in_executable_bytes(
    section: SectionHeader,
    len: int,
    at: int,
    size: int,
) -> bool {
    &&& section.characteristics & 0x2000_0000 != 0
    &&& 0 < size
    &&& section.virtual_address <= at
    &&& at + size <= section_end(section)
    &&& at + size <= len <= usize::MAX
}

/// Whether no byte of `[at, at + size)` is unavailable.
pub open spec fn all_available(
    unavailable: Seq<UnavailablePeRange>,
    at: int,
    size: int,
) -> bool {
    forall|x: int, u: int|
        at <= x < at + size && 0 <= u < unavailable.len() ==> !((
        #[trigger] unavailable[u]).rva <= x < #[trigger] shifted(unavailable[u], x))
}

/// The end of a range, for every byte asked about.
pub open spec fn shifted(range: UnavailablePeRange, _x: int) -> int {
    range.rva + range.size
}

/// Whether each byte of a signature is that of the data at `at`, or any.
pub open spec fn signature_matches_at(bytes: Seq<u8>, pattern: Seq<Option<u8>>, at: int) -> bool {
    forall|k: int|
        0 <= k < pattern.len() ==> match #[trigger] pattern[k] {
            Some(byte) => bytes[at + k] == byte,
            None => true,
        }
}

/// Whether a signature stands at `at` over available bytes of an executable section.
pub open spec fn signature_stands(
    snapshot: ValidatedPeSnapshot,
    section: SectionHeader,
    pattern: Seq<Option<u8>>,
    at: int,
) -> bool {
    &&& in_executable_bytes(section, snapshot.bytes@.len() as int, at, pattern.len() as int)
    &&& all_available(snapshot.unavailable_ranges@, at, pattern.len() as int)
    &&& signature_matches_at(snapshot.bytes@, pattern, at)
}

/// Two ways to look at a match of a section.
proof fn lemma_signature_found(
    snapshot: ValidatedPeSnapshot,
    section: SectionHeader,
    pattern: Seq<Option<u8>>,
    at: int,
)
    requires
        snapshot.bytes@.len() <= usize::MAX,
        0 < pattern.len(),
        section.virtual_address <= at,
    ensures
        signature_stands(snapshot, section, pattern, at) <==> scanned(
            section,
            snapshot.bytes@.len() as int,
        ) && pattern_found(
            scanned_bytes(snapshot.bytes@, section),
            section.virtual_address as int,
            pattern,
            snapshot.unavailable_ranges@,
            at - section.virtual_address,
        ),
{
    let len = snapshot.bytes@.len() as int;
    let size = pattern.len() as int;
    let start = section.virtual_address as int;
    let haystack = scanned_bytes(snapshot.bytes@, section);
    let unavailable = snapshot.unavailable_ranges@;
    if signature_stands(snapshot, section, pattern, at) {
        assert(scanned(section, len));
        assert(haystack.len() == scan_end(section, len) - start);
        assert forall|u: int| 0 <= u < unavailable.len() implies !crate::ranges::overlap(
            at,
            size,
            (#[trigger] unavailable[u]).rva as int,
            unavailable[u].size as int,
        ) by {
            let x = if at >= unavailable[u].rva {
                at
            } else {
                unavailable[u].rva as int
            };
            let end = shifted(unavailable[u], x);
        }
        assert forall|k: int| 0 <= k < size && (#[trigger] pattern[k]) is Some implies pattern[k]
            == Some(haystack[at - start + k]) by {
            assert(haystack[at - start + k] == snapshot.bytes@[at + k]);
        }
    }
    if scanned(section, len) && pattern_found(haystack, start, pattern, unavailable, at - start) {
        assert(haystack.len() == scan_end(section, len) - start);
        assert forall|k: int| 0 <= k < size implies match #[trigger] pattern[k] {
            Some(byte) => snapshot.bytes@[at + k] == byte,
            None => true,
        } by {
            assert(haystack[at - start + k] == snapshot.bytes@[at + k]);
        }
    }
}

/// A match of a scanned section is listed.
proof fn lemma_section_match(
    snapshot: ValidatedPeSnapshot,
    signatures: Seq<Signature>,
    signature_count: int,
    section_count: int,
    s: int,
    i: int,
    at: int,
) -> (n: int)
    requires
        0 <= signature_count <= signatures.len(),
        0 <= section_count <= snapshot.pe.sections@.len(),
        0 <= s < signatures.len(),
        0 <= i < snapshot.pe.sections@.len(),
        s < signature_count || (s == signature_count && i < section_count),
        snapshot.bytes@.len() <= usize::MAX,
        signature_stands(snapshot, snapshot.pe.sections@[i], signatures[s].pattern@, at),
    ensures
        ({
            let all = signature_matches(snapshot, signatures, signature_count, section_count);
            &&& 0 <= n < all.len()
            &&& all[n].name == signatures[s].name@
            &&& all[n].rva == at
        }),
    decreases signature_count, section_count,
{
    let sections = snapshot.pe.sections@;
    let len = snapshot.bytes@.len() as int;
    if section_count > 0 {
        let before = signature_matches(snapshot, signatures, signature_count, section_count - 1);
        let section = sections[section_count - 1];
        if s == signature_count && i == section_count - 1 {
            let pattern = signatures[s].pattern@;
            lemma_signature_found(snapshot, section, pattern, at);
            let haystack = scanned_bytes(snapshot.bytes@, section);
            let offset = at - section.virtual_address;
            law_pattern_offsets_are_complete(
                haystack,
                section.virtual_address as int,
                pattern,
                snapshot.unavailable_ranges@,
                offset,
            );
            let offsets = pattern_offsets(
                haystack,
                section.virtual_address as int,
                pattern,
                snapshot.unavailable_ranges@,
            );
            let j = offsets.index_of(offset as usize);
            let found = section_matches(snapshot, signatures[s], section);
            assert(found[j].rva == at);
            assert((before + found)[before.len() + j] == found[j]);
            before.len() + j
        } else {
            let n = lemma_section_match(
                snapshot,
                signatures,
                signature_count,
                section_count - 1,
                s,
                i,
                at,
            );
            if scanned(section, len) {
                let found = section_matches(snapshot, signatures[signature_count], section);
                assert((before + found)[n] == before[n]);
            }
            n
        }
    } else {
        lemma_section_match(
            snapshot,
            signatures,
            signature_count - 1,
            sections.len() as int,
            s,
            i,
            at,
        )
    }
}

/// A listed match stands in a section.
proof fn lemma_match_place(
    snapshot: ValidatedPeSnapshot,
    signatures: Seq<Signature>,
    signature_count: int,
    section_count: int,
    n: int,
) -> (place: (int, int))
    requires
        0 <= signature_count <= signatures.len(),
        0 <= section_count <= snapshot.pe.sections@.len(),
        section_count > 0 ==> signature_count < signatures.len(),
        snapshot.bytes@.len() <= usize::MAX,
        0 <= n < signature_matches(snapshot, signatures, signature_count, section_count).len(),
    ensures
        ({
            let hit = signature_matches(snapshot, signatures, signature_count, section_count)[n];
            let (s, i) = place;
            &&& 0 <= s < signatures.len()
            &&& 0 <= i < snapshot.pe.sections@.len()
            &&& hit.name == signatures[s].name@
            &&& signature_stands(
                snapshot,
                snapshot.pe.sections@[i],
                signatures[s].pattern@,
                hit.rva as int,
            )
        }),
    decreases signature_count, section_count,
{
    let sections = snapshot.pe.sections@;
    let len = snapshot.bytes@.len() as int;
    if section_count > 0 {
        let before = signature_matches(snapshot, signatures, signature_count, section_count - 1);
        let section = sections[section_count - 1];
        if n < before.len() {
            lemma_match_place(snapshot, signatures, signature_count, section_count - 1, n)
        } else {
            let found = section_matches(snapshot, signatures[signature_count], section);
            let pattern = signatures[signature_count].pattern@;
            let haystack = scanned_bytes(snapshot.bytes@, section);
            let offsets = pattern_offsets(
                haystack,
                section.virtual_address as int,
                pattern,
                snapshot.unavailable_ranges@,
            );
            let j = n - before.len();
            assert((before + found)[n] == found[j]);
            let offset = offsets[j] as int;
            assert(pattern.len() > 0);
            law_pattern_offsets_are_complete(
                haystack,
                section.virtual_address as int,
                pattern,
                snapshot.unavailable_ranges@,
                offset,
            );
            assert(offsets.contains(offsets[j]));
            lemma_signature_found(snapshot, section, pattern, section.virtual_address + offset);
            (signature_count, section_count - 1)
        }
    } else {
        lemma_match_place(snapshot, signatures, signature_count - 1, sections.len() as int, n)
    }
}

/// Every place at which a signature stands is a hit under its name, overlapping ones included.
pub proof fn law_every_signature_match_is_hit(
    snapshot: ValidatedPeSnapshot,
    signatures: Seq<Signature>,
    hits: Seq<PePatternMatch>,
    found: Seq<PePatternMatch>,
    s: int,
    i: int,
    at: int,
) -> (n: int)
    requires
        snapshot.bytes@.len() <= usize::MAX,
        found.to_multiset() == hits.to_multiset(),
        pattern_views(found) == signature_matches(snapshot, signatures, signatures.len() as int, 0),
        0 <= s < signatures.len(),
        0 <= i < snapshot.pe.sections@.len(),
        signature_stands(snapshot, snapshot.pe.sections@[i], signatures[s].pattern@, at),
    ensures
        0 <= n < hits.len(),
        hits[n].rva == at,
        hits[n].name@ == signatures[s].name@,
{
    let m = lemma_section_match(snapshot, signatures, signatures.len() as int, 0, s, i, at);
    assert(pattern_views(found)[m] == found[m]@);
    found.to_multiset_ensures();
    hits.to_multiset_ensures();
    assert(found.contains(found[m]));
    assert(found.to_multiset().count(found[m]) > 0);
    assert(hits.contains(found[m]));
    hits.index_of(found[m])
}

/// Nothing else is a hit.
pub proof fn law_every_hit_is_a_signature_match(
    snapshot: ValidatedPeSnapshot,
    signatures: Seq<Signature>,
    hits: Seq<PePatternMatch>,
    found: Seq<PePatternMatch>,
    n: int,
) -> (place: (int, int))
    requires
        snapshot.bytes@.len() <= usize::MAX,
        found.to_multiset() == hits.to_multiset(),
        pattern_views(found) == signature_matches(snapshot, signatures, signatures.len() as int, 0),
        0 <= n < hits.len(),
    ensures
        ({
            let (s, i) = place;
            &&& 0 <= s < signatures.len()
            &&& 0 <= i < snapshot.pe.sections@.len()
            &&& hits[n].name@ == signatures[s].name@
            &&& signature_stands(
                snapshot,
                snapshot.pe.sections@[i],
                signatures[s].pattern@,
                hits[n].rva as int,
            )
        }),
{
    found.to_multiset_ensures();
    hits.to_multiset_ensures();
    assert(hits.contains(hits[n]));
    assert(hits.to_multiset().count(hits[n]) > 0);
    assert(found.contains(hits[n]));
    let m = found.index_of(hits[n]);
    assert(pattern_views(found)[m] == found[m]@);
    lemma_match_place(snapshot, signatures, signatures.len() as int, 0, m)
}

/// Hits ascend by their RVA.
pub proof fn law_ordered_hits_ascend(hits: Seq<PePatternMatch>, i: int, j: int)
    requires
        ordered(hits),
        0 <= i <= j < hits.len(),
    ensures
        hits[i].rva <= hits[j].rva,
{
}

/// The entry signature is the first hit with the name of a startup signature; there is none where
/// no hit has such a name.
pub proof fn law_entry_signature_is_first(hits: Seq<PePatternMatch>, startup: Seq<Signature>) -> (n:
    int)
    ensures
        match first_startup_match(hits, 0, startup) {
            Some(hit) => {
                &&& 0 <= n < hits.len()
                &&& hit == hits[n]
                &&& exists|s: int|
                    0 <= s < startup.len() && (#[trigger] startup[s]).name@ == hits[n].name@
            },
            None => n == hits.len(),
        },
        forall|m: int, s: int|
            0 <= m < n && 0 <= s < startup.len() ==> (#[trigger] hits[m]).name@ != (
            #[trigger] startup[s]).name@,
{
    lemma_first_startup(hits, 0, startup)
}

/// The first hit of a startup signature from `index` on.
proof fn lemma_first_startup(hits: Seq<PePatternMatch>, index: int, startup: Seq<Signature>) -> (n:
    int)
    requires
        0 <= index <= hits.len(),
    ensures
        index <= n <= hits.len(),
        match first_startup_match(hits, index, startup) {
            Some(hit) => {
                &&& n < hits.len()
                &&& hit == hits[n]
                &&& exists|s: int|
                    0 <= s < startup.len() && (#[trigger] startup[s]).name@ == hits[n].name@
            },
            None => n == hits.len(),
        },
        forall|m: int, s: int|
            index <= m < n && 0 <= s < startup.len() ==> (#[trigger] hits[m]).name@ != (
            #[trigger] startup[s]).name@,
    decreases hits.len() - index,
{
    if index >= hits.len() || crate::patterns::names_signature(startup, hits[index].name@) {
        index
    } else {
        lemma_first_startup(hits, index + 1, startup)
    }
}

/// A scan is complete exactly when no byte of an executable section is unavailable.
pub proof fn law_complete_scan_has_every_byte(
    sections: Seq<SectionHeader>,
    unavailable: Seq<UnavailablePeRange>,
    i: int,
    u: int,
    x: int,
)
    requires
        0 <= i < sections.len(),
        0 <= u < unavailable.len(),
        sections[i].characteristics & 0x2000_0000 != 0,
        sections[i].virtual_address <= x < section_end(sections[i]),
        unavailable[u].rva <= x < unavailable[u].rva + unavailable[u].size,
    ensures
        !executable_complete(sections, unavailable),
{
    assert(crate::pe::layout::executable(sections[i]));
    assert(crate::ranges::overlap(
        sections[i].virtual_address as int,
        crate::pe::locate::mapped_size(sections[i]),
        unavailable[u].rva as int,
        unavailable[u].size as int,
    ));
}

/// A scan that is not complete misses a byte of an executable section.
pub proof fn law_incomplete_scan_misses_a_byte(
    sections: Seq<SectionHeader>,
    unavailable: Seq<UnavailablePeRange>,
) -> (place: (int, int, int))
    requires
        !executable_complete(sections, unavailable),
    ensures
        ({
            let (i, u, x) = place;
            &&& 0 <= i < sections.len()
            &&& 0 <= u < unavailable.len()
            &&& sections[i].characteristics & 0x2000_0000 != 0
            &&& sections[i].virtual_address <= x < section_end(sections[i])
            &&& unavailable[u].rva <= x < unavailable[u].rva + unavailable[u].size
        }),
{
    let i = choose|i: int|
        0 <= i < sections.len() && crate::pe::layout::executable(#[trigger] sections[i])
            && !crate::ranges::avoids_all(
            unavailable,
            sections[i].virtual_address as int,
            crate::pe::locate::mapped_size(sections[i]),
        );
    let u = choose|u: int|
        0 <= u < unavailable.len() && crate::ranges::overlap(
            sections[i].virtual_address as int,
            crate::pe::locate::mapped_size(sections[i]),
            (#[trigger] unavailable[u]).rva as int,
            unavailable[u].size as int,
        );
    let x = if unavailable[u].rva >= sections[i].virtual_address {
        unavailable[u].rva as int
    } else {
        sections[i].virtual_address as int
    };
    (i, u, x)
}

} // verus!
