//! Byte signatures in executable ranges.

use vstd::prelude::*;

use crate::pe::types::{SectionHeader, UnavailablePeRange, ValidatedPeSnapshot};
use crate::progress::{due_position, interval_updates, report_position, Progress};
use crate::ranges::{avoids_all, avoids_unavailable};
use crate::scan::{
    count_executable_bytes, executable_bytes, executable_complete, is_executable_complete,
    scan_range, scan_size, scanned, scanned_bytes,
};
use crate::sorting::{ordered, sort_records, RvaNamed};
use crate::text::text_equal;

verus! {

/// A named byte signature; `None` stands for any byte.
#[derive(Clone, Debug, Eq, PartialEq)]
pub struct Signature {
    pub name: &'static str,
    pub pattern: Vec<Option<u8>>,
}

/// Describes one configured x64 pattern match before process-address metadata is attached.
#[derive(Clone, Copy, Debug, Eq, PartialEq)]
pub struct PePatternMatch {
    pub name: &'static str,
    pub rva: usize,
}

/// The mathematical value of a pattern match.
pub ghost struct PatternView {
    pub name: Seq<char>,
    pub rva: usize,
}

impl View for PePatternMatch {
    type V = PatternView;

    open spec fn view(&self) -> PatternView {
        PatternView { name: self.name@, rva: self.rva }
    }
}

impl RvaNamed for PePatternMatch {
    open spec fn key_rva(&self) -> usize {
        self.rva
    }

    open spec fn key_name(&self) -> Seq<char> {
        self.name@
    }

    fn rva_key(&self) -> usize {
        self.rva
    }

    fn name_key(&self) -> &'static str {
        self.name
    }
}

/// Owns every signature match and the first configured CRT entry signature.
#[derive(Clone, Debug, Eq, PartialEq)]
pub struct PePatternScan {
    pub hits: Vec<PePatternMatch>,
    pub entry_signature: Option<PePatternMatch>,
    pub scan_complete: bool,
}

/// Whether `pattern` matches the bytes at `start`.
pub open spec fn pattern_at(haystack: Seq<u8>, pattern: Seq<Option<u8>>, start: int) -> bool {
    &&& start + pattern.len() <= haystack.len()
    &&& forall|k: int|
        0 <= k < pattern.len() && (#[trigger] pattern[k]) is Some ==> pattern[k] == Some(
            haystack[start + k],
        )
}

/// Whether `pattern` matches at `start` over available bytes; the bytes begin at `base_rva`.
pub open spec fn pattern_found(
    haystack: Seq<u8>,
    base_rva: int,
    pattern: Seq<Option<u8>>,
    unavailable: Seq<UnavailablePeRange>,
    start: int,
) -> bool {
    &&& base_rva + start <= usize::MAX
    &&& avoids_all(unavailable, base_rva + start, pattern.len() as int)
    &&& pattern_at(haystack, pattern, start)
}

/// The offsets below `count` at which `pattern` matches, ascending.
pub open spec fn offsets_below(
    haystack: Seq<u8>,
    base_rva: int,
    pattern: Seq<Option<u8>>,
    unavailable: Seq<UnavailablePeRange>,
    count: int,
) -> Seq<usize>
    decreases count,
{
    if count <= 0 {
        Seq::empty()
    } else {
        let before = offsets_below(haystack, base_rva, pattern, unavailable, count - 1);
        if pattern_found(haystack, base_rva, pattern, unavailable, count - 1) {
            before.push((count - 1) as usize)
        } else {
            before
        }
    }
}

/// The number of offsets at which `pattern` may stand.
pub open spec fn start_count(haystack: Seq<u8>, pattern: Seq<Option<u8>>) -> int {
    if pattern.len() == 0 || haystack.len() < pattern.len() {
        0
    } else {
        haystack.len() - pattern.len() + 1
    }
}

/// Every offset at which `pattern` matches, ascending; an empty pattern matches nowhere.
pub open spec fn pattern_offsets(
    haystack: Seq<u8>,
    base_rva: int,
    pattern: Seq<Option<u8>>,
    unavailable: Seq<UnavailablePeRange>,
) -> Seq<usize> {
    offsets_below(haystack, base_rva, pattern, unavailable, start_count(haystack, pattern))
}

/// The updates of one pattern search.
pub open spec fn search_updates(
    haystack: Seq<u8>,
    pattern: Seq<Option<u8>>,
    before: usize,
    total: usize,
) -> Seq<(usize, usize)> {
    interval_updates(before, start_count(haystack, pattern), total) + seq![
        (before.saturating_add(haystack.len() as usize), total),
    ]
}

/// Reports whether a pattern matches at an offset known to leave room for it.
fn is_pattern_at(haystack: &[u8], pattern: &[Option<u8>], start: usize) -> (r: bool)
    requires
        start + pattern@.len() <= haystack@.len(),
    ensures
        r == pattern_at(haystack@, pattern@, start as int),
{
    let mut index: usize = 0;
    assert(start + pattern@.len() <= haystack.len());
    while index < pattern.len()
        invariant
            index <= pattern@.len(),
            start + pattern@.len() <= haystack@.len(),
            start + pattern@.len() <= usize::MAX,
            forall|k: int|
                0 <= k < index && (#[trigger] pattern@[k]) is Some ==> pattern@[k] == Some(
                    haystack@[start + k],
                ),
        decreases pattern.len() - index,
    {
        match pattern[index] {
            Some(byte) => {
                if byte != haystack[start + index] {
                    assert(pattern@[index as int] is Some);
                    return false;
                }
            },
            None => {},
        }
        index += 1;
    }
    true
}

/// Collects every available byte offset matching one wildcard-aware signature.
pub fn collect_available_pattern_offsets<P: Progress>(
    haystack: &[u8],
    base_rva: usize,
    pattern: &[Option<u8>],
    unavailable_ranges: &[UnavailablePeRange],
    completed_before_range: usize,
    total_bytes: usize,
    progress: &mut P,
) -> (r: Vec<usize>)
    ensures
        r@ == pattern_offsets(haystack@, base_rva as int, pattern@, unavailable_ranges@),
        final(progress).updates() == old(progress).updates() + search_updates(
            haystack@,
            pattern@,
            completed_before_range,
            total_bytes,
        ),
{
    let ghost earlier = progress.updates();
    let mut offsets: Vec<usize> = Vec::new();
    if pattern.len() == 0 || haystack.len() < pattern.len() {
        progress.update(completed_before_range.saturating_add(haystack.len()), total_bytes);
        assert(progress.updates() =~= earlier + search_updates(
            haystack@,
            pattern@,
            completed_before_range,
            total_bytes,
        ));
        return offsets;
    }
    let last_start: usize = haystack.len() - pattern.len();
    let mut next_progress_offset: usize = 0;
    let mut start: usize = 0;
    assert(earlier + interval_updates(completed_before_range, 0, total_bytes) =~= earlier);
    while start <= last_start
        invariant
            pattern@.len() > 0,
            last_start == haystack@.len() - pattern@.len(),
            haystack@.len() <= usize::MAX,
            start <= last_start + 1,
            offsets@ == offsets_below(
                haystack@,
                base_rva as int,
                pattern@,
                unavailable_ranges@,
                start as int,
            ),
            due_position(start as int, next_progress_offset),
            progress.updates() == earlier + interval_updates(
                completed_before_range,
                start as int,
                total_bytes,
            ),
        decreases last_start + 1 - start,
    {
        next_progress_offset =
        report_position(
            progress,
            start,
            next_progress_offset,
            completed_before_range,
            total_bytes,
            Ghost(earlier),
        );
        match base_rva.checked_add(start) {
            Some(candidate_rva) => {
                if avoids_unavailable(unavailable_ranges, candidate_rva, pattern.len())
                    && is_pattern_at(haystack, pattern, start) {
                    offsets.push(start);
                }
            },
            None => {},
        }
        start += 1;
    }
    progress.update(completed_before_range.saturating_add(haystack.len()), total_bytes);
    assert(progress.updates() =~= earlier + search_updates(
        haystack@,
        pattern@,
        completed_before_range,
        total_bytes,
    ));
    offsets
}

/// Offsets below a bound are ascending, below that bound, and exactly those that match.
proof fn lemma_offsets_below(
    haystack: Seq<u8>,
    base_rva: int,
    pattern: Seq<Option<u8>>,
    unavailable: Seq<UnavailablePeRange>,
    count: int,
)
    requires
        0 <= count <= usize::MAX,
    ensures
        ({
            let offsets = offsets_below(haystack, base_rva, pattern, unavailable, count);
            &&& forall|i: int, j: int|
                0 <= i < j < offsets.len() ==> #[trigger] offsets[i] < #[trigger] offsets[j]
            &&& forall|i: int|
                0 <= i < offsets.len() ==> #[trigger] offsets[i] < count && pattern_found(
                    haystack,
                    base_rva,
                    pattern,
                    unavailable,
                    offsets[i] as int,
                )
            &&& forall|start: int|
                0 <= start < count && #[trigger] pattern_found(
                    haystack,
                    base_rva,
                    pattern,
                    unavailable,
                    start,
                ) ==> offsets.contains(start as usize)
        }),
    decreases count,
{
    if count > 0 {
        lemma_offsets_below(haystack, base_rva, pattern, unavailable, count - 1);
        let before = offsets_below(haystack, base_rva, pattern, unavailable, count - 1);
        let offsets = offsets_below(haystack, base_rva, pattern, unavailable, count);
        assert forall|start: int|
            0 <= start < count && #[trigger] pattern_found(
                haystack,
                base_rva,
                pattern,
                unavailable,
                start,
            ) implies offsets.contains(start as usize) by {
            if start < count - 1 {
                let i = before.index_of(start as usize);
                assert(offsets[i] == start as usize);
            } else {
                assert(offsets.last() == start as usize);
            }
        }
    }
}

/// A pattern search finds every match over available bytes, overlapping ones included, and
/// nothing else, in ascending order.
pub proof fn law_pattern_offsets_are_complete(
    haystack: Seq<u8>,
    base_rva: int,
    pattern: Seq<Option<u8>>,
    unavailable: Seq<UnavailablePeRange>,
    start: int,
)
    requires
        haystack.len() <= usize::MAX,
        0 <= start,
        pattern.len() > 0,
    ensures
        ({
            let offsets = pattern_offsets(haystack, base_rva, pattern, unavailable);
            &&& start <= usize::MAX ==> (offsets.contains(start as usize) <==> pattern_found(
                haystack,
                base_rva,
                pattern,
                unavailable,
                start,
            ))
            &&& forall|i: int, j: int|
                0 <= i < j < offsets.len() ==> #[trigger] offsets[i] < #[trigger] offsets[j]
        }),
{
    lemma_offsets_below(
        haystack,
        base_rva,
        pattern,
        unavailable,
        start_count(haystack, pattern),
    );
}

/// The matches of a signature in one section.
pub open spec fn section_matches(
    snapshot: ValidatedPeSnapshot,
    signature: Signature,
    section: SectionHeader,
) -> Seq<PatternView> {
    pattern_offsets(
        scanned_bytes(snapshot.bytes@, section),
        section.virtual_address as int,
        signature.pattern@,
        snapshot.unavailable_ranges@,
    ).map_values(
        |offset: usize|
            PatternView {
                name: signature.name@,
                rva: (section.virtual_address + offset) as usize,
            },
    )
}

/// The matches of the first `signature_count` signatures in all sections and of the next one in
/// the first `section_count` sections.
pub open spec fn signature_matches(
    snapshot: ValidatedPeSnapshot,
    signatures: Seq<Signature>,
    signature_count: int,
    section_count: int,
) -> Seq<PatternView>
    decreases signature_count, section_count,
{
    let sections = snapshot.pe.sections@;
    if section_count > 0 {
        let before = signature_matches(snapshot, signatures, signature_count, section_count - 1);
        if scanned(sections[section_count - 1], snapshot.bytes@.len() as int) {
            before + section_matches(
                snapshot,
                signatures[signature_count],
                sections[section_count - 1],
            )
        } else {
            before
        }
    } else if signature_count > 0 {
        signature_matches(snapshot, signatures, signature_count - 1, sections.len() as int)
    } else {
        Seq::empty()
    }
}

/// The bytes searched for the same signatures and sections.
pub open spec fn searched_bytes(
    snapshot: ValidatedPeSnapshot,
    signature_count: int,
    section_count: int,
) -> usize
    decreases signature_count, section_count,
{
    let sections = snapshot.pe.sections@;
    let len = snapshot.bytes@.len() as int;
    if section_count > 0 {
        let before = searched_bytes(snapshot, signature_count, section_count - 1);
        if scanned(sections[section_count - 1], len) {
            before.saturating_add(scan_size(sections[section_count - 1], len) as usize)
        } else {
            before
        }
    } else if signature_count > 0 {
        searched_bytes(snapshot, signature_count - 1, sections.len() as int)
    } else {
        0
    }
}

/// The updates of the same searches.
pub open spec fn signature_updates(
    snapshot: ValidatedPeSnapshot,
    signatures: Seq<Signature>,
    signature_count: int,
    section_count: int,
    total: usize,
) -> Seq<(usize, usize)>
    decreases signature_count, section_count,
{
    let sections = snapshot.pe.sections@;
    if section_count > 0 {
        let before = signature_updates(
            snapshot,
            signatures,
            signature_count,
            section_count - 1,
            total,
        );
        if scanned(sections[section_count - 1], snapshot.bytes@.len() as int) {
            before + search_updates(
                scanned_bytes(snapshot.bytes@, sections[section_count - 1]),
                signatures[signature_count].pattern@,
                searched_bytes(snapshot, signature_count, section_count - 1),
                total,
            ) + seq![(searched_bytes(snapshot, signature_count, section_count), total)]
        } else {
            before
        }
    } else if signature_count > 0 {
        signature_updates(
            snapshot,
            signatures,
            signature_count - 1,
            sections.len() as int,
            total,
        )
    } else {
        seq![(0usize, total)]
    }
}

/// The bytes that searching every signature goes over.
pub open spec fn search_total(snapshot: ValidatedPeSnapshot, signature_count: int) -> usize {
    let bytes = executable_bytes(
        snapshot.pe.sections@,
        snapshot.pe.sections@.len() as int,
        snapshot.bytes@.len() as int,
    );
    if bytes * signature_count > usize::MAX {
        usize::MAX
    } else {
        (bytes * signature_count) as usize
    }
}

/// The views of a run of pattern matches.
pub open spec fn pattern_views(hits: Seq<PePatternMatch>) -> Seq<PatternView> {
    hits.map_values(|hit: PePatternMatch| hit@)
}

/// Whether `name` is the name of one of `signatures`.
pub open spec fn names_signature(signatures: Seq<Signature>, name: Seq<char>) -> bool {
    exists|i: int| 0 <= i < signatures.len() && (#[trigger] signatures[i]).name@ == name
}

/// The first match, from `index` on, of a startup signature.
pub open spec fn first_startup_match(
    hits: Seq<PePatternMatch>,
    index: int,
    startup: Seq<Signature>,
) -> Option<PePatternMatch>
    decreases hits.len() - index,
{
    if index >= hits.len() {
        None
    } else if names_signature(startup, hits[index].name@) {
        Some(hits[index])
    } else {
        first_startup_match(hits, index + 1, startup)
    }
}

/// Reports whether a name is the name of one of the signatures.
fn is_signature_name(signatures: &[Signature], name: &str) -> (r: bool)
    ensures
        r == names_signature(signatures@, name@),
{
    let mut index: usize = 0;
    while index < signatures.len()
        invariant
            index <= signatures@.len(),
            forall|i: int| 0 <= i < index ==> (#[trigger] signatures@[i]).name@ != name@,
        decreases signatures.len() - index,
    {
        if text_equal(signatures[index].name, name) {
            assert(signatures@[index as int].name@ == name@);
            return true;
        }
        index += 1;
    }
    false
}

/// Finds the first match of a startup signature.
fn find_startup_match(hits: &[PePatternMatch], startup: &[Signature]) -> (r: Option<
    PePatternMatch,
>)
    ensures
        r == first_startup_match(hits@, 0, startup@),
{
    let mut index: usize = 0;
    while index < hits.len()
        invariant
            index <= hits@.len(),
            first_startup_match(hits@, 0, startup@) == first_startup_match(
                hits@,
                index as int,
                startup@,
            ),
        decreases hits.len() - index,
    {
        if is_signature_name(startup, hits[index].name) {
            return Some(hits[index]);
        }
        index += 1;
    }
    None
}

/// Appends the matches of one signature in one scanned section.
fn append_section_matches<P: Progress>(
    snapshot: &ValidatedPeSnapshot,
    signature: &Signature,
    section: &SectionHeader,
    section_start: usize,
    section_end: usize,
    hits: &mut Vec<PePatternMatch>,
    completed_bytes: usize,
    total_bytes: usize,
    progress: &mut P,
)
    requires
        scanned(*section, snapshot.bytes@.len() as int),
        section_start == section.virtual_address,
        section_end == section_start + scan_size(*section, snapshot.bytes@.len() as int),
    ensures
        pattern_views(final(hits)@) == pattern_views(old(hits)@) + section_matches(
            *snapshot,
            *signature,
            *section,
        ),
        final(progress).updates() == old(progress).updates() + search_updates(
            scanned_bytes(snapshot.bytes@, *section),
            signature.pattern@,
            completed_bytes,
            total_bytes,
        ),
{
    let haystack: &[u8] = vstd::slice::slice_subrange(
        snapshot.bytes.as_slice(),
        section_start,
        section_end,
    );
    let offsets = collect_available_pattern_offsets(
        haystack,
        section_start,
        &signature.pattern,
        &snapshot.unavailable_ranges,
        completed_bytes,
        total_bytes,
        progress,
    );
    proof {
        lemma_offsets_below(
            haystack@,
            section_start as int,
            signature.pattern@,
            snapshot.unavailable_ranges@,
            start_count(haystack@, signature.pattern@),
        );
    }
    let ghost found = section_matches(*snapshot, *signature, *section);
    let mut index: usize = 0;
    assert(pattern_views(hits@) =~= pattern_views(old(hits)@) + found.subrange(0, 0));
    while index < offsets.len()
        invariant
            index <= offsets@.len(),
            section_start == section.virtual_address,
            found == section_matches(*snapshot, *signature, *section),
            offsets@ == pattern_offsets(
                scanned_bytes(snapshot.bytes@, *section),
                section.virtual_address as int,
                signature.pattern@,
                snapshot.unavailable_ranges@,
            ),
            forall|i: int| 0 <= i < offsets@.len() ==> section_start + #[trigger] offsets@[i]
                <= usize::MAX,
            pattern_views(hits@) == pattern_views(old(hits)@) + found.subrange(0, index as int),
        decreases offsets.len() - index,
    {
        assert(section_start + offsets@[index as int] <= usize::MAX);
        let hit = PePatternMatch { name: signature.name, rva: section_start + offsets[index] };
        let ghost before = hits@;
        hits.push(hit);
        assert(found[index as int] == hit@);
        assert(pattern_views(hits@) =~= pattern_views(before).push(hit@));
        assert(found.subrange(0, index + 1) =~= found.subrange(0, index as int).push(hit@));
        index += 1;
        assert(pattern_views(hits@) =~= pattern_views(old(hits)@) + found.subrange(
            0,
            index as int,
        ));
    }
    assert(found.subrange(0, index as int) =~= found);
}

/// Scans executable process-image ranges for every configured signature. `startup` holds the
/// signatures of CRT entry points.
pub fn collect_pattern_hits_from_snapshot<P: Progress>(
    snapshot: &ValidatedPeSnapshot,
    signatures: &[Signature],
    startup: &[Signature],
    progress: &mut P,
) -> (r: PePatternScan)
    ensures
        ordered(r.hits@),
        exists|found: Seq<PePatternMatch>| #[trigger]
            found.to_multiset() == r.hits@.to_multiset() && pattern_views(found)
                == signature_matches(*snapshot, signatures@, signatures@.len() as int, 0),
        r.entry_signature == first_startup_match(r.hits@, 0, startup@),
        r.scan_complete == executable_complete(
            snapshot.pe.sections@,
            snapshot.unavailable_ranges@,
        ),
        final(progress).updates() == old(progress).updates() + signature_updates(
            *snapshot,
            signatures@,
            signatures@.len() as int,
            0,
            search_total(*snapshot, signatures@.len() as int),
        ),
{
    let ghost earlier = progress.updates();
    let scan_complete: bool = is_executable_complete(snapshot);
    let bytes_per_signature: usize = count_executable_bytes(
        &snapshot.pe.sections,
        snapshot.bytes.len(),
    );
    let total_bytes: usize = match bytes_per_signature.checked_mul(signatures.len()) {
        Some(value) => value,
        None => usize::MAX,
    };
    let mut completed_bytes: usize = 0;
    let mut hits: Vec<PePatternMatch> = Vec::new();
    progress.update(0, total_bytes);
    assert(progress.updates() =~= earlier + signature_updates(
        *snapshot,
        signatures@,
        0,
        0,
        total_bytes,
    ));
    assert(pattern_views(hits@) =~= signature_matches(*snapshot, signatures@, 0, 0));
    let mut signature_index: usize = 0;
    while signature_index < signatures.len()
        invariant
            signature_index <= signatures@.len(),
            completed_bytes == searched_bytes(*snapshot, signature_index as int, 0),
            pattern_views(hits@) == signature_matches(
                *snapshot,
                signatures@,
                signature_index as int,
                0,
            ),
            progress.updates() == earlier + signature_updates(
                *snapshot,
                signatures@,
                signature_index as int,
                0,
                total_bytes,
            ),
        decreases signatures.len() - signature_index,
    {
        let mut section_index: usize = 0;
        while section_index < snapshot.pe.sections.len()
            invariant
                signature_index < signatures@.len(),
                section_index <= snapshot.pe.sections@.len(),
                completed_bytes == searched_bytes(
                    *snapshot,
                    signature_index as int,
                    section_index as int,
                ),
                pattern_views(hits@) == signature_matches(
                    *snapshot,
                    signatures@,
                    signature_index as int,
                    section_index as int,
                ),
                progress.updates() == earlier + signature_updates(
                    *snapshot,
                    signatures@,
                    signature_index as int,
                    section_index as int,
                    total_bytes,
                ),
            decreases snapshot.pe.sections.len() - section_index,
        {
            let section = &snapshot.pe.sections[section_index];
            match scan_range(section, snapshot.bytes.len()) {
                Some((section_start, section_end)) => {
                    append_section_matches(
                        snapshot,
                        &signatures[signature_index],
                        section,
                        section_start,
                        section_end,
                        &mut hits,
                        completed_bytes,
                        total_bytes,
                        progress,
                    );
                    completed_bytes = completed_bytes.saturating_add(section_end - section_start);
                    progress.update(completed_bytes, total_bytes);
                    assert(progress.updates() =~= earlier + signature_updates(
                        *snapshot,
                        signatures@,
                        signature_index as int,
                        section_index + 1,
                        total_bytes,
                    ));
                },
                None => {},
            }
            section_index += 1;
        }
        signature_index += 1;
    }
    let ghost found = hits@;
    let hits = sort_records(hits);
    assert(found.to_multiset() == hits@.to_multiset());
    let entry_signature = find_startup_match(&hits, startup);
    PePatternScan { hits, entry_signature, scan_complete }
}

} // verus!
