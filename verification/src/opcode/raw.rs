//! Raw opcode occurrences in executable sections.

use vstd::prelude::*;

use super::catalog::{catalog, opcode_match, opcode_modrm_at, OpcodeBytecode, OpcodeView};
use super::hits::{summary_views, ProcessOpcodeRawSummary, SummaryView};
use crate::pe::locate::get_file_offset_from_pe;
use crate::pe::types::{SectionHeader, ValidatedPeSnapshot};
use crate::ranges::{avoids_all, avoids_unavailable};
use crate::scan::{scan_size, scanned, scanned_bytes};
use crate::sorting::RvaNamed;

verus! {

/// Describes one raw opcode occurrence in a mapped executable section.
#[derive(Clone, Copy, Debug, Eq, PartialEq)]
pub struct ProcessOpcodeRawHit {
    pub name: &'static str,
    pub bytecode: &'static [u8],
    pub requires_modrm: bool,
    pub modrm: Option<u8>,
    pub section_index: usize,
    pub address: Option<usize>,
    pub rva: usize,
    pub file_offset: Option<usize>,
}

/// The mathematical value of a raw occurrence.
pub ghost struct RawHitView {
    pub opcode: OpcodeView,
    pub modrm: Option<u8>,
    pub section_index: usize,
    pub address: Option<usize>,
    pub rva: usize,
    pub file_offset: Option<usize>,
}

impl View for ProcessOpcodeRawHit {
    type V = RawHitView;

    open spec fn view(&self) -> RawHitView {
        RawHitView {
            opcode: OpcodeView {
                name: self.name@,
                bytecode: self.bytecode@,
                requires_modrm: self.requires_modrm,
            },
            modrm: self.modrm,
            section_index: self.section_index,
            address: self.address,
            rva: self.rva,
            file_offset: self.file_offset,
        }
    }
}

impl RvaNamed for ProcessOpcodeRawHit {
    open spec fn key_rva(&self) -> usize {
        self.rva
    }

    open spec fn key_name(&self) -> Seq<char> {
        self.name@
    }

    fn rva_key(&self) -> usize {
        self.rva
    }

    fn name_key(&self) -> &'static str {
        self.name
    }
}

/// The views of a run of raw occurrences.
pub open spec fn raw_views(hits: Seq<ProcessOpcodeRawHit>) -> Seq<RawHitView> {
    hits.map_values(|hit: ProcessOpcodeRawHit| hit@)
}

/// The bytes that a match of `opcode` takes.
pub open spec fn matched_size(opcode: OpcodeView) -> int {
    if opcode.requires_modrm {
        opcode.bytecode.len() as int + 1
    } else {
        opcode.bytecode.len() as int
    }
}

/// Whether `opcode` occurs at `offset` of a scanned section, over available bytes only.
pub open spec fn occurs(
    snapshot: ValidatedPeSnapshot,
    section: SectionHeader,
    offset: int,
    opcode: OpcodeView,
) -> bool {
    &&& opcode_match(scanned_bytes(snapshot.bytes@, section), offset, opcode) is Some
    &&& avoids_all(
        snapshot.unavailable_ranges@,
        section.virtual_address + offset,
        matched_size(opcode),
    )
}

/// The record of an occurrence.
pub open spec fn raw_hit(
    base_address: usize,
    snapshot: ValidatedPeSnapshot,
    section_index: int,
    offset: int,
    opcode: OpcodeView,
) -> RawHitView {
    let section = snapshot.pe.sections@[section_index];
    let rva = (section.virtual_address + offset) as usize;
    RawHitView {
        opcode,
        modrm: opcode_match(scanned_bytes(snapshot.bytes@, section), offset, opcode)->0,
        section_index: section_index as usize,
        address: base_address.checked_add(rva),
        rva,
        file_offset: snapshot.pe.file_offset(rva as int),
    }
}

/// The occurrences of the first `count` catalog opcodes at one offset of a section.
pub open spec fn raw_hits_at(
    base_address: usize,
    snapshot: ValidatedPeSnapshot,
    section_index: int,
    offset: int,
    count: int,
) -> Seq<RawHitView>
    decreases count,
{
    if count <= 0 {
        Seq::empty()
    } else {
        let before = raw_hits_at(base_address, snapshot, section_index, offset, count - 1);
        let opcode = catalog()[count - 1];
        if occurs(snapshot, snapshot.pe.sections@[section_index], offset, opcode) {
            before.push(raw_hit(base_address, snapshot, section_index, offset, opcode))
        } else {
            before
        }
    }
}

/// The occurrences at the first `offsets` offsets of a section.
pub open spec fn raw_hits_in(
    base_address: usize,
    snapshot: ValidatedPeSnapshot,
    section_index: int,
    offsets: int,
) -> Seq<RawHitView>
    decreases offsets,
{
    if offsets <= 0 {
        Seq::empty()
    } else {
        raw_hits_in(base_address, snapshot, section_index, offsets - 1) + raw_hits_at(
            base_address,
            snapshot,
            section_index,
            offsets - 1,
            catalog().len() as int,
        )
    }
}

/// The occurrences in the scanned sections among the first `count`.
pub open spec fn raw_hits(
    base_address: usize,
    snapshot: ValidatedPeSnapshot,
    count: int,
) -> Seq<RawHitView>
    decreases count,
{
    if count <= 0 {
        Seq::empty()
    } else {
        let section = snapshot.pe.sections@[count - 1];
        let len = snapshot.bytes@.len() as int;
        if scanned(section, len) {
            raw_hits(base_address, snapshot, count - 1) + raw_hits_in(
                base_address,
                snapshot,
                count - 1,
                scan_size(section, len),
            )
        } else {
            raw_hits(base_address, snapshot, count - 1)
        }
    }
}

/// How many of `hits` are of `opcode`.
pub open spec fn hits_of(hits: Seq<RawHitView>, opcode: OpcodeView) -> nat
    decreases hits.len(),
{
    if hits.len() == 0 {
        0
    } else if hits.last().opcode == opcode {
        hits_of(hits.drop_last(), opcode) + 1
    } else {
        hits_of(hits.drop_last(), opcode)
    }
}

/// A count that stops at the largest representable one.
pub open spec fn saturated(count: nat) -> usize {
    if count > usize::MAX {
        usize::MAX
    } else {
        count as usize
    }
}

/// Raw occurrences and their counts.
pub struct RawOpcodeLog {
    pub matches: Vec<ProcessOpcodeRawHit>,
    pub match_count: usize,
    pub truncated: bool,
    pub summaries: Vec<ProcessOpcodeRawSummary>,
}

/// The summaries with the match counts of `hits`.
pub open spec fn with_match_counts(summaries: Seq<SummaryView>, hits: Seq<RawHitView>) -> Seq<
    SummaryView,
> {
    Seq::new(
        summaries.len(),
        |j: int|
            SummaryView {
                match_count: saturated(hits_of(hits, summaries[j].opcode)),
                ..summaries[j]
            },
    )
}

/// Whether summaries belong to the catalog, one for each opcode in catalog order.
pub open spec fn catalog_summaries(summaries: Seq<SummaryView>) -> bool {
    &&& summaries.len() == catalog().len()
    &&& forall|j: int| 0 <= j < summaries.len() ==> (#[trigger] summaries[j]).opcode == catalog()[j]
}

impl RawOpcodeLog {
    /// The log holds `hits`: all of them are counted; all are kept, or, once memory was refused,
    /// only those before.
    pub open spec fn holds(&self, summaries: Seq<SummaryView>, hits: Seq<RawHitView>) -> bool {
        &&& self.match_count == saturated(hits.len())
        &&& summary_views(self.summaries@) == with_match_counts(summaries, hits)
        &&& self.matches@.len() <= hits.len()
        &&& raw_views(self.matches@) == hits.subrange(0, self.matches@.len() as int)
        &&& self.truncated == (self.matches@.len() < hits.len())
    }
}

/// Distinct catalog positions hold distinct opcodes.
proof fn lemma_catalog_distinct(i: int, j: int)
    requires
        0 <= i < catalog().len(),
        0 <= j < catalog().len(),
        catalog()[i] == catalog()[j],
    ensures
        i == j,
{
    let (a, b) = (catalog()[i].bytecode, catalog()[j].bytecode);
    assert(a.len() == b.len());
    assert(a[0] == b[0]);
    if a.len() == 2 {
        assert(a[1] == b[1]);
    }
}

/// Counts one more occurrence of the opcode whose summary is at `position`. A log that is not
/// truncated keeps it when room was `granted` and is truncated otherwise.
pub fn keep_raw_match(
    log: &mut RawOpcodeLog,
    position: usize,
    hit: ProcessOpcodeRawHit,
    granted: bool,
)
    requires
        position < old(log).summaries@.len(),
    ensures
        final(log).matches@ == (if !old(log).truncated && granted {
            old(log).matches@.push(hit)
        } else {
            old(log).matches@
        }),
        final(log).truncated == (old(log).truncated || !granted),
        final(log).match_count == old(log).match_count.saturating_add(1),
        final(log).summaries@ == old(log).summaries@.update(
            position as int,
            (ProcessOpcodeRawSummary {
                match_count: old(log).summaries@[position as int].match_count.saturating_add(1),
                ..old(log).summaries@[position as int]
            }),
        ),
{
    let mut summary = log.summaries[position];
    summary.match_count = summary.match_count.saturating_add(1);
    log.summaries[position] = summary;
    log.match_count = log.match_count.saturating_add(1);
    if !granted {
        log.truncated = true;
    } else if !log.truncated {
        log.matches.push(hit);
    }
}

/// Counts and keeps one more occurrence of the opcode at catalog position `position`.
fn record_raw_match(
    log: &mut RawOpcodeLog,
    position: usize,
    hit: ProcessOpcodeRawHit,
    Ghost(summaries): Ghost<Seq<SummaryView>>,
    Ghost(hits): Ghost<Seq<RawHitView>>,
)
    requires
        catalog_summaries(summaries),
        old(log).holds(summaries, hits),
        position < catalog().len(),
        hit@.opcode == catalog()[position as int],
    ensures
        final(log).holds(summaries, hits.push(hit@)),
{
    let ghost more = hits.push(hit@);
    let ghost before = log.matches@;
    assert(more.drop_last() =~= hits);
    assert(summary_views(log.summaries@).len() == log.summaries@.len());
    let granted: bool = !log.truncated && log.matches.try_reserve(1).is_ok();
    keep_raw_match(log, position, hit, granted);
    proof {
        assert forall|j: int| 0 <= j < summaries.len() implies summary_views(log.summaries@)[j]
            == with_match_counts(summaries, more)[j] by {
            assert(summary_views(old(log).summaries@)[j] == old(log).summaries@[j]@);
            assert(with_match_counts(summaries, hits)[j].match_count == saturated(
                hits_of(hits, summaries[j].opcode),
            ));
            if j != position {
                if summaries[j].opcode == catalog()[position as int] {
                    lemma_catalog_distinct(j, position as int);
                }
            }
        }
        assert(summary_views(log.summaries@) =~= with_match_counts(summaries, more));
        if granted {
            assert(before.len() == hits.len());
            assert(raw_views(log.matches@) =~= raw_views(before).push(hit@));
            assert(hits.subrange(0, before.len() as int) =~= hits);
            assert(more.subrange(0, log.matches@.len() as int) =~= more);
        } else {
            assert(more.subrange(0, before.len() as int) =~= hits.subrange(
                0,
                before.len() as int,
            ));
        }
    }
}

/// Records every catalog opcode that occurs at one offset of a scanned section.
pub(crate) fn record_raw_matches_at(
    base_address: usize,
    snapshot: &ValidatedPeSnapshot,
    section_index: usize,
    section_bytes: &[u8],
    offset: usize,
    opcodes: &[OpcodeBytecode],
    log: &mut RawOpcodeLog,
    Ghost(summaries): Ghost<Seq<SummaryView>>,
    Ghost(hits): Ghost<Seq<RawHitView>>,
)
    requires
        opcodes@.len() == catalog().len(),
        forall|i: int| 0 <= i < opcodes@.len() ==> (#[trigger] opcodes@[i])@ == catalog()[i],
        section_index < snapshot.pe.sections@.len(),
        scanned(snapshot.pe.sections@[section_index as int], snapshot.bytes@.len() as int),
        section_bytes@ == scanned_bytes(
            snapshot.bytes@,
            snapshot.pe.sections@[section_index as int],
        ),
        offset < section_bytes@.len(),
        catalog_summaries(summaries),
        old(log).holds(summaries, hits),
    ensures
        final(log).holds(
            summaries,
            hits + raw_hits_at(
                base_address,
                *snapshot,
                section_index as int,
                offset as int,
                catalog().len() as int,
            ),
        ),
{
    let ghost section = snapshot.pe.sections@[section_index as int];
    let section_start: usize = snapshot.pe.sections[section_index].virtual_address as usize;
    assert(section_start + offset < snapshot.bytes.len());
    let rva: usize = section_start + offset;
    let mut index: usize = 0;
    assert(hits + raw_hits_at(base_address, *snapshot, section_index as int, offset as int, 0)
        =~= hits);
    while index < opcodes.len()
        invariant
            index <= opcodes@.len(),
            opcodes@.len() == catalog().len(),
            forall|i: int| 0 <= i < opcodes@.len() ==> (#[trigger] opcodes@[i])@ == catalog()[i],
            section_index < snapshot.pe.sections@.len(),
            section == snapshot.pe.sections@[section_index as int],
            section_bytes@ == scanned_bytes(snapshot.bytes@, section),
            rva == section.virtual_address + offset,
            catalog_summaries(summaries),
            log.holds(
                summaries,
                hits + raw_hits_at(
                    base_address,
                    *snapshot,
                    section_index as int,
                    offset as int,
                    index as int,
                ),
            ),
        decreases opcodes.len() - index,
    {
        let opcode = &opcodes[index];
        assert(opcode@ == catalog()[index as int]);
        let ghost found = raw_hits_at(
            base_address,
            *snapshot,
            section_index as int,
            offset as int,
            index as int,
        );
        match opcode_modrm_at(section_bytes, offset, opcode) {
            Some(modrm) => {
                assert(opcode.bytecode@.len() <= 2) by {
                    assert(catalog()[index as int].bytecode.len() <= 2);
                }
                let size: usize = if opcode.requires_modrm {
                    opcode.bytecode.len() + 1
                } else {
                    opcode.bytecode.len()
                };
                if avoids_unavailable(&snapshot.unavailable_ranges, rva, size) {
                    let hit = ProcessOpcodeRawHit {
                        name: opcode.name,
                        bytecode: opcode.bytecode,
                        requires_modrm: opcode.requires_modrm,
                        modrm,
                        section_index,
                        address: base_address.checked_add(rva),
                        rva,
                        file_offset: get_file_offset_from_pe(&snapshot.pe, rva),
                    };
                    record_raw_match(log, index, hit, Ghost(summaries), Ghost(hits + found));
                    assert((hits + found).push(hit@) =~= hits + found.push(hit@));
                }
            },
            None => {},
        }
        index += 1;
    }
}

/// Whether `hits` lists the occurrence of `opcode` at `offset` of a section.
pub open spec fn lists(
    hits: Seq<RawHitView>,
    base_address: usize,
    snapshot: ValidatedPeSnapshot,
    section_index: int,
    offset: int,
    opcode: OpcodeView,
) -> bool {
    hits.contains(raw_hit(base_address, snapshot, section_index, offset, opcode))
}

/// An element of a part is an element of the whole.
proof fn lemma_contains_concat(left: Seq<RawHitView>, right: Seq<RawHitView>, hit: RawHitView)
    ensures
        left.contains(hit) ==> (left + right).contains(hit),
        right.contains(hit) ==> (left + right).contains(hit),
{
    if left.contains(hit) {
        let i = left.index_of(hit);
        assert((left + right)[i] == hit);
    }
    if right.contains(hit) {
        let i = right.index_of(hit);
        assert((left + right)[left.len() + i] == hit);
    }
}

/// Every occurrence of a catalog opcode in a scanned section, over available bytes, is listed,
/// overlapping ones included.
pub proof fn law_every_raw_occurrence_is_listed(
    base_address: usize,
    snapshot: ValidatedPeSnapshot,
    section_index: int,
    offset: int,
    position: int,
)
    requires
        0 <= section_index < snapshot.pe.sections@.len(),
        scanned(snapshot.pe.sections@[section_index], snapshot.bytes@.len() as int),
        0 <= offset < scan_size(
            snapshot.pe.sections@[section_index],
            snapshot.bytes@.len() as int,
        ),
        0 <= position < catalog().len(),
        occurs(snapshot, snapshot.pe.sections@[section_index], offset, catalog()[position]),
    ensures
        lists(
            raw_hits(base_address, snapshot, snapshot.pe.sections@.len() as int),
            base_address,
            snapshot,
            section_index,
            offset,
            catalog()[position],
        ),
{
    let size = scan_size(snapshot.pe.sections@[section_index], snapshot.bytes@.len() as int);
    lemma_listed_at(
        base_address,
        snapshot,
        section_index,
        offset,
        position,
        catalog().len() as int,
    );
    lemma_listed_in(base_address, snapshot, section_index, offset, catalog()[position], size);
    lemma_listed_among(
        base_address,
        snapshot,
        section_index,
        offset,
        catalog()[position],
        snapshot.pe.sections@.len() as int,
    );
}

/// An occurrence is listed at its offset.
proof fn lemma_listed_at(
    base_address: usize,
    snapshot: ValidatedPeSnapshot,
    section_index: int,
    offset: int,
    position: int,
    count: int,
)
    requires
        0 <= position < count <= catalog().len(),
        occurs(snapshot, snapshot.pe.sections@[section_index], offset, catalog()[position]),
    ensures
        lists(
            raw_hits_at(base_address, snapshot, section_index, offset, count),
            base_address,
            snapshot,
            section_index,
            offset,
            catalog()[position],
        ),
    decreases count,
{
    let hit = raw_hit(base_address, snapshot, section_index, offset, catalog()[position]);
    let hits = raw_hits_at(base_address, snapshot, section_index, offset, count);
    let before = raw_hits_at(base_address, snapshot, section_index, offset, count - 1);
    if position == count - 1 {
        assert(hits.last() == hit);
    } else {
        lemma_listed_at(base_address, snapshot, section_index, offset, position, count - 1);
        let i = before.index_of(hit);
        assert(hits[i] == hit);
    }
}

/// What is listed at an offset is listed in its section.
proof fn lemma_listed_in(
    base_address: usize,
    snapshot: ValidatedPeSnapshot,
    section_index: int,
    offset: int,
    opcode: OpcodeView,
    offsets: int,
)
    requires
        0 <= offset < offsets,
        lists(
            raw_hits_at(
                base_address,
                snapshot,
                section_index,
                offset,
                catalog().len() as int,
            ),
            base_address,
            snapshot,
            section_index,
            offset,
            opcode,
        ),
    ensures
        lists(
            raw_hits_in(base_address, snapshot, section_index, offsets),
            base_address,
            snapshot,
            section_index,
            offset,
            opcode,
        ),
    decreases offsets,
{
    let hit = raw_hit(base_address, snapshot, section_index, offset, opcode);
    if offset < offsets - 1 {
        lemma_listed_in(base_address, snapshot, section_index, offset, opcode, offsets - 1);
    }
    lemma_contains_concat(
        raw_hits_in(base_address, snapshot, section_index, offsets - 1),
        raw_hits_at(
            base_address,
            snapshot,
            section_index,
            offsets - 1,
            catalog().len() as int,
        ),
        hit,
    );
}

/// What is listed in a scanned section is listed in the image.
proof fn lemma_listed_among(
    base_address: usize,
    snapshot: ValidatedPeSnapshot,
    section_index: int,
    offset: int,
    opcode: OpcodeView,
    count: int,
)
    requires
        0 <= section_index < count <= snapshot.pe.sections@.len(),
        scanned(snapshot.pe.sections@[section_index], snapshot.bytes@.len() as int),
        lists(
            raw_hits_in(
                base_address,
                snapshot,
                section_index,
                scan_size(snapshot.pe.sections@[section_index], snapshot.bytes@.len() as int),
            ),
            base_address,
            snapshot,
            section_index,
            offset,
            opcode,
        ),
    ensures
        lists(
            raw_hits(base_address, snapshot, count),
            base_address,
            snapshot,
            section_index,
            offset,
            opcode,
        ),
    decreases count,
{
    let hit = raw_hit(base_address, snapshot, section_index, offset, opcode);
    if section_index < count - 1 {
        lemma_listed_among(base_address, snapshot, section_index, offset, opcode, count - 1);
    }
    lemma_contains_concat(
        raw_hits(base_address, snapshot, count - 1),
        raw_hits_in(
            base_address,
            snapshot,
            count - 1,
            scan_size(snapshot.pe.sections@[count - 1], snapshot.bytes@.len() as int),
        ),
        hit,
    );
}

} // verus!
