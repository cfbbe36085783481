//! Records and limits, stated field by field.

use vstd::prelude::*;

use crate::bytes::{lemma_nul_index, nul_index};
use crate::code_section::{
    candidates_overlap, code_candidate, code_candidate_count, image_evidence, ranked_candidates,
    CandidateView, CodeSectionAnalysis, RuntimeFunctionEvidence,
};
use crate::console::progress_line;
use crate::laws::code::{section_is_mapped, shows_code};
use crate::laws::locate::section_end;
use crate::laws::opcodes::{law_first_opcode_offset, law_hits_are_counted, opcode_stands};
use crate::layout::dump_name;
use crate::memory::{MemoryRegion, MemoryRegionQueryError};
use crate::opcode::catalog::{catalog, OpcodeView};
use crate::opcode::collect::coverage_usable;
use crate::opcode::hits::{
    built_hit, counted, executable_section_index, first_named, recorded, HitLogView, HitView,
    ProcessOpcodeEvidence, SummaryView,
};
use crate::opcode::padding::{PaddingLog, ProcessOpcodePaddingSample};
use crate::opcode::queue::QueueView;
use crate::opcode::raw::{hits_of, with_match_counts, RawHitView};
use crate::opcode::traverse::{
    decoded_scan_is, BackingState, ProcessDecodedOpcodeScan, ProcessInstructionBoundaryScan,
};
use crate::pe::locate::section_name;
use crate::pe::region::image_region_result;
use crate::pe::snapshot::{next_query, snapshot_size, walked_region, ImageWalkAction};
use crate::pe::types::{NtHeadersView, PeImage, PeSectionInfo, SectionHeader, ValidatedPeSnapshot};
use crate::scan::executable_bytes;
use crate::stack_strings::TebStackString;
use crate::string_scan::{DecodedView, MainModuleString};
use crate::text::lossy_text;

verus! {

/// A section name is what stands before its first zero byte, or all eight bytes.
pub proof fn law_section_names(section: SectionHeader, length: int)
    requires
        0 <= length <= 8,
        forall|i: int| 0 <= i < length ==> #[trigger] section.name@[i] != 0,
        length < 8 ==> section.name@[length] == 0,
    ensures
        section_name(section) == lossy_text(section.name@.subrange(0, length)),
{
    lemma_nul_index(section.name@, 0);
    let found = nul_index(section.name@, 0);
    if found < length {
        assert(section.name@[found] != 0);
    }
    if length < found {
        assert(section.name@[length] != 0);
    }
}

/// The record of a section says what its header says.
pub proof fn law_section_records(info: PeSectionInfo, section: SectionHeader)
    requires
        info.describes(section),
    ensures
        info.name@ == section_name(section),
        info.rva == section.virtual_address,
        info.virtual_size == section.virtual_size,
        info.raw_size == section.size_of_raw_data,
        info.rva + info.mapped_size == section_end(section),
        info.raw_file_offset == section.pointer_to_raw_data,
        info.characteristics == section.characteristics,
{
}

/// A string of the main module stands at its offset from the base, in memory and in the file.
pub proof fn law_module_strings(
    record: MainModuleString,
    string: DecodedView,
    base: usize,
    snapshot: ValidatedPeSnapshot,
)
    requires
        record.places(string, base, snapshot),
    ensures
        record.value@ == string.value,
        record.encoding == string.encoding,
        record.rva == string.offset,
        record.address == base + record.rva,
        record.file_offset == snapshot.pe.file_offset(record.rva as int),
{
}

/// A string of a stack stands at its offset in what was read.
pub proof fn law_stack_records(
    record: TebStackString,
    string: DecodedView,
    thread_id: u32,
    address: usize,
    stack_limit: usize,
)
    requires
        record.places(string, thread_id, address, stack_limit),
    ensures
        record.thread_id == thread_id,
        record.value@ == string.value,
        record.encoding == string.encoding,
        record.address == address + string.offset,
        record.address == stack_limit + record.stack_offset,
{
}

/// A walk over an image ends behind it, gives up after 4096 regions, and else asks for the region
/// at its address.
pub proof fn law_walk_queries(address: usize, end: int, count: usize, size: usize)
    ensures
        next_query(address, end, count, size) is Ok <==> address >= end || count != 4096,
        address >= end ==> next_query(address, end, count, size)->Ok_0 == ImageWalkAction::Finished,
        address < end && count != 4096 ==> next_query(address, end, count, size)->Ok_0 == (
        ImageWalkAction::QueryRegion { address }),
{
}

/// A region takes a walk over an image on exactly when it holds the address, ends in the address
/// range, and belongs to the image up to its own end or the end of the image.
pub proof fn law_walked_regions(
    outcome: Result<MemoryRegion, MemoryRegionQueryError>,
    address: usize,
    base: int,
    h: NtHeadersView,
    sections: Seq<SectionHeader>,
)
    requires
        base + h.optional_header.size_of_image <= usize::MAX,
    ensures
        ({
            let r = walked_region(outcome, address, base, h, sections);
            let region = outcome->Ok_0;
            let end = region.base_address + region.region_size;
            let image_end = base + h.optional_header.size_of_image;
            let cut = if end <= image_end {
                end
            } else {
                image_end
            };
            let accepted = image_region_result(
                region,
                address as int,
                cut,
                base,
                h.optional_header.size_of_headers as int,
                h.optional_header.section_alignment as int,
                sections,
            );
            &&& r is Ok <==> outcome is Ok && region.base_address <= address < end <= usize::MAX
                && accepted is Ok
            &&& r is Ok ==> {
                &&& r->Ok_0.region == region
                &&& r->Ok_0.region_end == end
                &&& r->Ok_0.range_end == cut
                &&& r->Ok_0.disposition == accepted->Ok_0
            }
        }),
{
}

/// An image is copied exactly up to 0x10000000 bytes and inside the address range.
pub proof fn law_snapshot_sizes(base: usize, size: usize)
    ensures
        snapshot_size(base, size) is Ok <==> size <= 0x1000_0000 && base + size <= usize::MAX,
        snapshot_size(base, size) is Ok ==> snapshot_size(base, size)->Ok_0 == size,
{
}

/// Whether the byte at `x` lies in candidate `n`.
pub open spec fn in_candidate(candidates: Seq<CandidateView>, n: int, x: int) -> bool {
    0 <= n < candidates.len() && candidates[n].location.rva <= x < candidates[n].end_rva
}

/// Sections overlap exactly when two of them share a byte.
pub proof fn law_overlapping_sections(candidates: Seq<CandidateView>)
    requires
        forall|n: int|
            0 <= n < candidates.len() ==> (#[trigger] candidates[n]).location.rva
                < candidates[n].end_rva,
    ensures
        candidates_overlap(candidates) <==> exists|i: int, j: int, x: int|
            i != j && #[trigger] in_candidate(candidates, i, x) && #[trigger] in_candidate(
                candidates,
                j,
                x,
            ),
{
    if candidates_overlap(candidates) {
        let (i, j) = choose|i: int, j: int|
            0 <= i < j < candidates.len() && (#[trigger] candidates[i]).location.rva < (
            #[trigger] candidates[j]).end_rva && candidates[j].location.rva
                < candidates[i].end_rva;
        let x = if candidates[i].location.rva >= candidates[j].location.rva {
            candidates[i].location.rva as int
        } else {
            candidates[j].location.rva as int
        };
        assert(in_candidate(candidates, i, x) && in_candidate(candidates, j, x));
    }
    if exists|i: int, j: int, x: int|
        i != j && #[trigger] in_candidate(candidates, i, x) && #[trigger] in_candidate(
            candidates,
            j,
            x,
        ) {
        let (i, j, x) = choose|i: int, j: int, x: int|
            i != j && #[trigger] in_candidate(candidates, i, x) && #[trigger] in_candidate(
                candidates,
                j,
                x,
            );
        let (a, b) = if i < j {
            (i, j)
        } else {
            (j, i)
        };
        assert(candidates[a].location.rva < candidates[b].end_rva);
        assert(candidates_overlap(candidates));
    }
}

/// The number of candidates that show code.
proof fn lemma_code_count(ranked: Seq<CandidateView>, trusted: bool, count: int)
    requires
        0 <= count <= ranked.len(),
    ensures
        ({
            let places = Set::new(
                |n: int| 0 <= n < count && code_candidate(ranked[n], trusted),
            );
            places.finite() && code_candidate_count(ranked, trusted, count) == places.len()
        }),
    decreases count,
{
    let places = Set::new(|n: int| 0 <= n < count && code_candidate(ranked[n], trusted));
    if count == 0 {
        assert(places =~= Set::empty());
    } else {
        lemma_code_count(ranked, trusted, count - 1);
        let before = Set::new(
            |n: int| 0 <= n < count - 1 && code_candidate(ranked[n], trusted),
        );
        if code_candidate(ranked[count - 1], trusted) {
            assert(places =~= before.insert(count - 1));
        } else {
            assert(places =~= before);
        }
    }
}

/// What an analysis says of the image: whether it is whole, whether every section with bytes ends in
/// it, and how many sections show code.
pub proof fn law_analysis_facts(data: Seq<u8>, pe: PeImage, analysis: CodeSectionAnalysis)
    requires
        analysis.analyzes(data, pe),
        data.len() <= usize::MAX,
    ensures
        analysis.image_complete <==> pe.nt_headers.optional_header.size_of_image <= data.len(),
        analysis.section_ranges_valid <==> forall|i: int|
            0 <= i < pe.sections@.len() && (#[trigger] pe.sections@[i]).virtual_address
                < section_end(pe.sections@[i]) ==> section_is_mapped(
                pe,
                pe.sections@[i],
                data.len() as int,
            ),
        analysis.section_layout_valid <==> pe.error_in(data.len() as int) is None,
        analysis.runtime_function_evidence == image_evidence(data, pe),
        analysis.candidate_count == Set::new(
            |n: int|
                0 <= n < ranked_candidates(data, pe).len() && shows_code(
                    ranked_candidates(data, pe)[n].location,
                    image_evidence(data, pe) == RuntimeFunctionEvidence::Valid,
                ),
        ).len(),
{
    let ranked = ranked_candidates(data, pe);
    let trusted = image_evidence(data, pe) == RuntimeFunctionEvidence::Valid;
    let count = ranked.len() as int;
    lemma_code_count(ranked, trusted, count);
    let left = Set::new(|n: int| 0 <= n < count && code_candidate(ranked[n], trusted));
    let right = Set::new(|n: int| 0 <= n < count && shows_code(ranked[n].location, trusted));
    assert forall|n: int| left.contains(n) <==> right.contains(n) by {
        if 0 <= n < count {
            let c = ranked[n].location.characteristics;
            assert(c & (0x20u32 | 0x2000_0000u32) != 0 <==> (c & 0x20 != 0 || c & 0x2000_0000 != 0))
                by (bit_vector);
        }
    }
    assert(left =~= right);
    if analysis.section_ranges_valid {
        assert forall|i: int|
            0 <= i < pe.sections@.len() && (#[trigger] pe.sections@[i]).virtual_address
                < section_end(pe.sections@[i]) implies section_is_mapped(
            pe,
            pe.sections@[i],
            data.len() as int,
        ) by {
            assert(crate::pe::locate::mapped_size(pe.sections@[i]) != 0);
        }
    } else {
        let i = choose|i: int|
            0 <= i < pe.sections@.len() && crate::pe::locate::mapped_size(
                #[trigger] pe.sections@[i],
            ) != 0 && !crate::code_section::range_fits(
                pe.sections@[i],
                pe.nt_headers.optional_header.size_of_image as int,
                data.len() as int,
            );
        assert(pe.sections@[i].virtual_address < section_end(pe.sections@[i]));
    }
}

/// The first executable section that holds an RVA, from `index` on.
proof fn lemma_executable_index(sections: Seq<SectionHeader>, index: int, rva: int)
    requires
        usize::MAX >= 0xFFFF_FFFF_FFFF_FFFF,
        0 <= index <= sections.len() <= usize::MAX,
    ensures
        match executable_section_index(sections, index, rva) {
            Some(i) => {
                &&& index <= i < sections.len()
                &&& holds_code(sections, i as int, rva)
                &&& forall|j: int| index <= j < i ==> !(#[trigger] holds_code(sections, j, rva))
            },
            None => forall|j: int| index <= j ==> !(#[trigger] holds_code(sections, j, rva)),
        },
    decreases sections.len() - index,
{
    if index < sections.len() && !holds_code(sections, index, rva) {
        lemma_executable_index(sections, index + 1, rva);
    }
}

/// Whether section `i` is executable and holds `rva`.
pub open spec fn holds_code(sections: Seq<SectionHeader>, i: int, rva: int) -> bool {
    &&& 0 <= i < sections.len()
    &&& sections[i].characteristics & 0x2000_0000 != 0
    &&& sections[i].virtual_address <= rva < section_end(sections[i])
}

/// The hit of an unchanged opcode tells its section, where in the instruction the opcode stands, and
/// both byte runs; there is one exactly where a section and the opcode's bytes are there.
pub proof fn law_static_hits(
    base: usize,
    snapshot: ValidatedPeSnapshot,
    mnemonic: Seq<char>,
    rva: usize,
    position: int,
    process: Seq<u8>,
    backing: Seq<u8>,
)
    requires
        usize::MAX >= 0xFFFF_FFFF_FFFF_FFFF,
        0 <= position < 6,
        backing.len() <= usize::MAX,
        rva + backing.len() <= usize::MAX,
        snapshot.pe.sections@.len() <= usize::MAX,
    ensures
        ({
            let hit = built_hit(
                base,
                snapshot,
                mnemonic,
                rva,
                catalog()[position],
                ProcessOpcodeEvidence::DecodedStaticInstruction,
                process,
                backing,
            );
            let sections = snapshot.pe.sections@;
            &&& hit is Some <==> (exists|i: int| #[trigger] holds_code(sections, i, rva as int)) && (
            exists|at: int| #[trigger] opcode_stands(backing, at, position))
            &&& hit is Some ==> {
                let h = hit->0;
                &&& holds_code(sections, h.section_index as int, rva as int)
                &&& forall|j: int|
                    0 <= j < h.section_index ==> !(#[trigger] holds_code(sections, j, rva as int))
                &&& opcode_stands(backing, h.opcode_offset as int, position)
                &&& forall|x: int|
                    0 <= x < h.opcode_offset ==> !(#[trigger] opcode_stands(backing, x, position))
                &&& h.rva == rva + h.opcode_offset
                &&& h.instruction_rva == rva
                &&& h.name == catalog()[position].name
                &&& h.process_bytes == process
                &&& h.backing_instruction_bytes == backing
                &&& position >= 4 ==> h.modrm == Some(backing[h.opcode_offset + 2])
                &&& position < 4 ==> h.modrm is None
                &&& match h.address {
                    Some(address) => address == base + h.rva,
                    None => base + h.rva > usize::MAX,
                }
            }
        }),
{
    lemma_executable_index(snapshot.pe.sections@, 0, rva as int);
    law_first_opcode_offset(backing, position);
    let section = executable_section_index(snapshot.pe.sections@, 0, rva as int);
    if section is Some {
        assert(holds_code(snapshot.pe.sections@, section->0 as int, rva as int));
    } else {
        assert forall|i: int| !(#[trigger] holds_code(
            snapshot.pe.sections@,
            i,
            rva as int,
        )) by {}
    }
    let offset = crate::opcode::catalog::first_opcode_offset(backing, catalog()[position], 0);
    if offset is Some {
        crate::laws::opcodes::law_opcode_matches(backing, offset->0 as int, position);
        assert(opcode_stands(backing, offset->0 as int, position));
    }
}

/// The hit of a trap that stands in the process alone tells the trap's bytes at the instruction.
pub proof fn law_difference_hits(
    base: usize,
    snapshot: ValidatedPeSnapshot,
    mnemonic: Seq<char>,
    rva: usize,
    position: int,
    process: Seq<u8>,
    backing: Seq<u8>,
)
    requires
        usize::MAX >= 0xFFFF_FFFF_FFFF_FFFF,
        0 <= position < 4,
        snapshot.pe.sections@.len() <= usize::MAX,
        opcode_stands(process, 0, position),
    ensures
        ({
            let hit = built_hit(
                base,
                snapshot,
                mnemonic,
                rva,
                catalog()[position],
                ProcessOpcodeEvidence::MappedTrapDifference,
                process,
                backing,
            );
            let size = crate::laws::opcodes::opcode_size(position);
            &&& hit is Some <==> exists|i: int| #[trigger]
                holds_code(snapshot.pe.sections@, i, rva as int)
            &&& hit is Some ==> {
                let h = hit->0;
                &&& h.rva == rva
                &&& h.instruction_rva == rva
                &&& h.opcode_offset == 0
                &&& h.name == catalog()[position].name
                &&& h.process_bytes == process.subrange(0, size)
                &&& h.backing_instruction_bytes == backing
                &&& holds_code(snapshot.pe.sections@, h.section_index as int, rva as int)
            }
        }),
{
    lemma_executable_index(snapshot.pe.sections@, 0, rva as int);
    let section = executable_section_index(snapshot.pe.sections@, 0, rva as int);
    if section is Some {
        assert(holds_code(snapshot.pe.sections@, section->0 as int, rva as int));
    } else {
        assert forall|i: int| !(#[trigger] holds_code(
            snapshot.pe.sections@,
            i,
            rva as int,
        )) by {}
    }
}

/// A hit is counted once, kept where it was built and room was granted, and else marks the log.
pub proof fn law_recorded_hits(
    log: HitLogView,
    name: Seq<char>,
    evidence: ProcessOpcodeEvidence,
    built: Option<HitView>,
    granted: bool,
)
    requires
        log.hit_count < usize::MAX,
    ensures
        ({
            let after = recorded(log, name, evidence, built, granted);
            &&& after.hit_count == log.hit_count + 1
            &&& built is Some && granted ==> after.hits == log.hits.push(built->0)
                && after.hits_truncated == log.hits_truncated
            &&& built is None || !granted ==> after.hits == log.hits && after.hits_truncated
        }),
{
}

/// The first summary of a name, from `index` on.
proof fn lemma_first_named(summaries: Seq<SummaryView>, index: int, name: Seq<char>)
    requires
        0 <= index,
    ensures
        match first_named(summaries, index, name) {
            Some(i) => {
                &&& index <= i < summaries.len()
                &&& summaries[i].opcode.name == name
                &&& forall|j: int| index <= j < i ==> (#[trigger] summaries[j]).opcode.name != name
            },
            None => forall|j: int|
                index <= j < summaries.len() ==> (#[trigger] summaries[j]).opcode.name != name,
        },
    decreases summaries.len() - index,
{
    if index < summaries.len() && summaries[index].opcode.name != name {
        lemma_first_named(summaries, index + 1, name);
    }
}

/// A classification is counted in the summary of its name and under its evidence, and nowhere else.
pub proof fn law_counted_classifications(
    summaries: Seq<SummaryView>,
    name: Seq<char>,
    evidence: ProcessOpcodeEvidence,
    i: int,
    j: int,
)
    requires
        0 <= i < summaries.len(),
        summaries[i].opcode.name == name,
        forall|k: int| 0 <= k < i ==> (#[trigger] summaries[k]).opcode.name != name,
        summaries[i].decoded_static_instruction_count < usize::MAX,
        summaries[i].mapped_trap_difference_count < usize::MAX,
        0 <= j < summaries.len(),
    ensures
        ({
            let after = counted(summaries, name, evidence);
            let differs = evidence == ProcessOpcodeEvidence::MappedTrapDifference;
            &&& after.len() == summaries.len()
            &&& j != i ==> after[j] == summaries[j]
            &&& after[i].opcode == summaries[i].opcode
            &&& after[i].match_count == summaries[i].match_count
            &&& after[i].mapped_trap_difference_count
                == summaries[i].mapped_trap_difference_count + (if differs {
                1int
            } else {
                0int
            })
            &&& after[i].decoded_static_instruction_count
                == summaries[i].decoded_static_instruction_count + (if differs {
                0int
            } else {
                1int
            })
        }),
{
    lemma_first_named(summaries, 0, name);
    let found = first_named(summaries, 0, name);
    if found is Some {
        let k = found->0;
        if i < k {
            assert(summaries[i].opcode.name != name);
        }
        if k < i {
            assert(summaries[k].opcode.name != name);
        }
    }
}

/// A padding log counts all runs and keeps the first thirty-two.
pub proof fn law_padding_samples(
    log: PaddingLog,
    runs: Seq<ProcessOpcodePaddingSample>,
    n: int,
)
    requires
        log.holds(runs),
        runs.len() <= usize::MAX,
        0 <= n < runs.len(),
    ensures
        log.run_count == runs.len(),
        n < 32 ==> n < log.samples@.len() && log.samples@[n] == runs[n],
        log.samples@.len() <= 32,
        log.samples@.len() <= runs.len(),
{
}

/// A decode tells padding from code exactly when it covered something, both decodes found
/// instructions, nothing failed, and no limit was met.
pub proof fn law_usable_coverage(decoded: ProcessDecodedOpcodeScan)
    ensures
        coverage_usable(decoded) <==> decoded.coverage_available
            && decoded.current_instruction_count > 0 && decoded.error_count == 0
            && !decoded.limit_reached,
{
}

/// A progress line has a bar of twenty-four places, one in twenty-four filled for each share of the
/// percentage that is done.
pub proof fn law_progress_bars(phase: Seq<char>, percentage: int, i: int)
    requires
        0 <= percentage <= 100,
        0 <= i < 24,
    ensures
        ({
            let line = progress_line(phase, percentage);
            &&& line.len() >= 27
            &&& line[0] == '\r'
            &&& line[1] == '['
            &&& line[26] == ']'
            &&& line[2 + i] == '#' <==> 100 * (i + 1) <= 24 * percentage
            &&& line[2 + i] == '#' || line[2 + i] == '-'
        }),
{
    let line = progress_line(phase, percentage);
    let filled = percentage * 24 / 100;
    assert(i < filled <==> 100 * (i + 1) <= 24 * percentage);
    assert(line[2 + i] == if i < filled {
        '#'
    } else {
        '-'
    });
}

/// The directory of a dump is named by the process, the marker and the digest.
pub proof fn law_dump_names(process: Seq<char>, digest: Seq<char>)
    ensures
        dump_name(process, digest) == process + seq!['_', 'p', 'r', 'o', 'c', 'd', 'm', 'p', '_']
            + digest,
{
    reveal_strlit("procdmp");
    assert(dump_name(process, digest) =~= process + seq![
        '_',
        'p',
        'r',
        'o',
        'c',
        'd',
        'm',
        'p',
        '_',
    ] + digest);
}

/// The decodes of the process and of the raw executable add up: what either covered is covered,
/// their errors are added, and either limit is a limit.
pub proof fn law_decodes_add_up(
    scan: ProcessDecodedOpcodeScan,
    queue: QueueView,
    state: BackingState,
    current: ProcessInstructionBoundaryScan,
    x: int,
)
    requires
        decoded_scan_is(scan, queue, state, current),
        state.traversal.error_count + current.error_count <= usize::MAX,
    ensures
        scan.decoded_coverage@.contains(x) <==> state.traversal.coverage.contains(x)
            || current.decoded_coverage@.contains(x),
        scan.error_count == state.traversal.error_count + current.error_count,
        scan.limit_reached <==> state.traversal.limit_reached || current.limit_reached,
        scan.instruction_count == state.traversal.instruction_count,
        scan.current_instruction_count == current.instruction_count,
        scan.coverage_available <==> scan.seed_count > 0 && scan.instruction_count > 0,
        scan.byte_count == state.byte_count,
        scan.log@.hits == state.log.hits,
{
}

/// A section adds to the executable bytes what of it is executable and in the data.
pub proof fn law_executable_bytes(sections: Seq<SectionHeader>, count: int, len: int)
    requires
        usize::MAX >= 0xFFFF_FFFF_FFFF_FFFF,
        0 <= count < sections.len(),
        0 <= len <= usize::MAX,
        executable_bytes(sections, count, len) + len <= usize::MAX,
    ensures
        executable_bytes(sections, 0, len) == 0,
        ({
            let section = sections[count];
            let end = if section_end(section) <= len {
                section_end(section)
            } else {
                len
            };
            let more = if section.characteristics & 0x2000_0000 != 0 && section.virtual_address
                < end {
                end - section.virtual_address
            } else {
                0
            };
            executable_bytes(sections, count + 1, len) == executable_bytes(sections, count, len)
                + more
        }),
{
}

/// The occurrences of an opcode are counted in its summary, and nothing else of it changes.
pub proof fn law_summaries_count_matches(
    summaries: Seq<SummaryView>,
    hits: Seq<RawHitView>,
    j: int,
)
    requires
        0 <= j < summaries.len(),
        hits.len() <= usize::MAX,
    ensures
        ({
            let after = with_match_counts(summaries, hits);
            &&& after.len() == summaries.len()
            &&& after[j].match_count == Set::new(
                |n: int| 0 <= n < hits.len() && hits[n].opcode == summaries[j].opcode,
            ).len()
            &&& after[j].opcode == summaries[j].opcode
            &&& after[j].decoded_static_instruction_count
                == summaries[j].decoded_static_instruction_count
            &&& after[j].mapped_trap_difference_count == summaries[j].mapped_trap_difference_count
        }),
{
    law_hits_are_counted(hits, summaries[j].opcode);
    lemma_no_more_hits(hits, summaries[j].opcode);
}

/// No more hits are of an opcode than there are hits.
proof fn lemma_no_more_hits(hits: Seq<RawHitView>, opcode: OpcodeView)
    ensures
        hits_of(hits, opcode) <= hits.len(),
    decreases hits.len(),
{
    if hits.len() > 0 {
        lemma_no_more_hits(hits.drop_last(), opcode);
    }
}

} // verus!
