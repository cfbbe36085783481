//! Collection of classified and raw opcode evidence from a snapshot.

use vstd::prelude::*;

use super::bitmap::ProcessDecodeBitmap;
use super::catalog::{breakpoint_opcodes, catalog, OpcodeBytecode};
use super::evaluate::{
    evaluate_backing_file, evaluated_file, rejected_file, runtime_function_check,
    validate_runtime_functions_against_backing, BackingEvaluation, BackingReason,
    FileValidationError, ProcessOpcodeBackingStatus, ProcessOpcodeRelocationStatus,
    RuntimeFunctionMismatch,
};
use super::hits::{
    counted, first_named, summary_views, ProcessOpcodeEvidence, ProcessOpcodeHit,
    ProcessOpcodeRawSummary, SummaryView,
};
use super::padding::{
    finished_runs, is_likely_padding, padding_in, padding_runs, record_padding_run, PaddingContext,
    PaddingLog, ProcessOpcodePaddingSample,
};
use super::queue::{functions_sorted, seeded_queue};
use super::raw::{
    catalog_summaries, raw_hits, raw_hits_in, raw_views, record_raw_matches_at, with_match_counts,
    ProcessOpcodeRawHit, RawHitView, RawOpcodeLog,
};
use super::relocation::RelocationError;
use super::traverse::{
    backing_context, backing_run, boundary_outcome, collect_decoded_opcode_hits, decoded_outcome,
    decoded_scan_failed, decoded_scan_is, empty_decoded_opcode_scan, initial_backing,
    BackingContext, BackingState, ProcessDecodedOpcodeScan, ProcessInstructionBoundaryScan,
};
use crate::backing::ValidatedPeFile;
use crate::code_section::RuntimeFunctionRange;
use crate::pe::types::{UnavailablePeRange, ValidatedPeSnapshot};
use crate::process::ValidatedProcessPe;
use crate::progress::{interval_updates, report_position, Progress};
use crate::scan::{
    count_executable_bytes, executable_bytes, executable_complete, is_executable_complete,
    scan_range, scan_size, scan_updates, scanned, scanned_bytes,
};
use crate::sorting::{ordered, sort_records, RvaNamed};

verus! {

/// Owns every classified and raw opcode hit plus scan summaries for the main image.
#[derive(Clone, Debug, Eq, PartialEq)]
pub struct ProcessOpcodeCollection {
    pub module_base_address: usize,
    pub module_size: usize,
    pub scan_complete: bool,
    pub backing_status: ProcessOpcodeBackingStatus,
    pub backing_reason: Option<BackingReason>,
    pub relocation_status: ProcessOpcodeRelocationStatus,
    pub relocation_reason: Option<RelocationError>,
    pub mapped_trap_difference_detection_enabled: bool,
    pub runtime_function_seed_metadata_present: bool,
    pub runtime_function_seed_count: usize,
    pub runtime_function_seed_reason: Option<RuntimeFunctionMismatch>,
    pub decoded_seed_count: usize,
    pub decoded_instruction_count: usize,
    pub current_decoded_instruction_count: usize,
    pub decoded_byte_count: usize,
    pub decode_error_count: usize,
    pub decode_limit_reached: bool,
    pub hit_count: usize,
    pub hits_truncated: bool,
    pub hits: Vec<ProcessOpcodeHit>,
    pub raw_match_count: usize,
    pub raw_matches_truncated: bool,
    pub raw_matches: Vec<ProcessOpcodeRawHit>,
    pub raw_summaries: Vec<ProcessOpcodeRawSummary>,
    pub padding_candidate_run_count: usize,
    pub padding_candidate_byte_count: usize,
    pub padding_samples: Vec<ProcessOpcodePaddingSample>,
    pub unavailable_ranges: Vec<UnavailablePeRange>,
}

impl RvaNamed for ProcessOpcodeHit {
    open spec fn key_rva(&self) -> usize {
        self.rva
    }

    open spec fn key_name(&self) -> Seq<char> {
        self.name@
    }

    fn rva_key(&self) -> usize {
        self.rva
    }

    fn name_key(&self) -> &'static str {
        self.name
    }
}

/// The summary of every catalog opcode before anything was counted.
pub open spec fn zero_summaries() -> Seq<SummaryView> {
    Seq::new(
        catalog().len(),
        |j: int|
            SummaryView {
                opcode: catalog()[j],
                match_count: 0,
                decoded_static_instruction_count: 0,
                mapped_trap_difference_count: 0,
            },
    )
}

/// Creates the summary of every catalog opcode.
fn create_raw_summaries(opcodes: &[OpcodeBytecode]) -> (r: Vec<ProcessOpcodeRawSummary>)
    requires
        opcodes@.len() == catalog().len(),
        forall|i: int| 0 <= i < opcodes@.len() ==> (#[trigger] opcodes@[i])@ == catalog()[i],
    ensures
        summary_views(r@) == zero_summaries(),
{
    let mut summaries: Vec<ProcessOpcodeRawSummary> = Vec::with_capacity(opcodes.len());
    let mut index: usize = 0;
    while index < opcodes.len()
        invariant
            index <= opcodes@.len(),
            opcodes@.len() == catalog().len(),
            forall|i: int| 0 <= i < opcodes@.len() ==> (#[trigger] opcodes@[i])@ == catalog()[i],
            summaries@.len() == index,
            forall|j: int| 0 <= j < index ==> (#[trigger] summaries@[j])@ == zero_summaries()[j],
        decreases opcodes.len() - index,
    {
        let opcode = opcodes[index];
        assert(opcode@ == catalog()[index as int]);
        summaries.push(
            ProcessOpcodeRawSummary {
                name: opcode.name,
                bytecode: opcode.bytecode,
                requires_modrm: opcode.requires_modrm,
                match_count: 0,
                decoded_static_instruction_count: 0,
                mapped_trap_difference_count: 0,
            },
        );
        index += 1;
    }
    assert(summary_views(summaries@) =~= zero_summaries());
    summaries
}

/// Records raw occurrences and padding runs of one scanned section.
fn scan_section<P: Progress>(
    base_address: usize,
    snapshot: &ValidatedPeSnapshot,
    file: Option<&ValidatedPeFile>,
    coverage: &ProcessDecodeBitmap,
    coverage_usable: bool,
    opcodes: &[OpcodeBytecode],
    section_index: usize,
    section_start: usize,
    section_end: usize,
    log: &mut RawOpcodeLog,
    padding: &mut PaddingLog,
    completed_bytes: usize,
    total_bytes: usize,
    progress: &mut P,
    Ghost(context): Ghost<PaddingContext>,
    Ghost(summaries): Ghost<Seq<SummaryView>>,
    Ghost(hits): Ghost<Seq<RawHitView>>,
    Ghost(runs): Ghost<Seq<ProcessOpcodePaddingSample>>,
)
    requires
        opcodes@.len() == catalog().len(),
        forall|i: int| 0 <= i < opcodes@.len() ==> (#[trigger] opcodes@[i])@ == catalog()[i],
        section_index < snapshot.pe.sections@.len(),
        scanned(snapshot.pe.sections@[section_index as int], snapshot.bytes@.len() as int),
        section_start == snapshot.pe.sections@[section_index as int].virtual_address,
        section_end == section_start + scan_size(
            snapshot.pe.sections@[section_index as int],
            snapshot.bytes@.len() as int,
        ),
        file is Some ==> file->0.wf(),
        context == (PaddingContext {
            base_address,
            snapshot: *snapshot,
            file: match file {
                Some(file) => Some(*file),
                None => None,
            },
            coverage: coverage@,
            coverage_usable,
        }),
        catalog_summaries(summaries),
        old(log).holds(summaries, hits),
        old(padding).holds(runs),
    ensures
        final(log).holds(
            summaries,
            hits + raw_hits_in(
                base_address,
                *snapshot,
                section_index as int,
                section_end - section_start,
            ),
        ),
        final(padding).holds(
            finished_runs(
                context,
                section_index as int,
                padding_in(context, section_index as int, section_end - section_start, runs),
                section_end - section_start,
            ),
        ),
        final(progress).updates() == old(progress).updates() + interval_updates(
            completed_bytes,
            section_end - section_start,
            total_bytes,
        ),
{
    assert(section_end <= snapshot.bytes.len());
    let section_bytes: &[u8] = vstd::slice::slice_subrange(
        snapshot.bytes.as_slice(),
        section_start,
        section_end,
    );
    let size: usize = section_end - section_start;
    let mut next_progress_offset: usize = 0;
    let mut run_start: Option<usize> = None;
    let mut offset: usize = 0;
    let ghost earlier = progress.updates();
    assert(earlier + interval_updates(completed_bytes, 0, total_bytes) =~= earlier);
    assert(hits + raw_hits_in(base_address, *snapshot, section_index as int, 0) =~= hits);
    while offset < size
        invariant
            offset <= size,
            size == section_end - section_start,
            size == section_bytes@.len(),
            section_end <= snapshot.bytes@.len(),
            snapshot.bytes@.len() <= usize::MAX,
            opcodes@.len() == catalog().len(),
            forall|i: int| 0 <= i < opcodes@.len() ==> (#[trigger] opcodes@[i])@ == catalog()[i],
            section_index < snapshot.pe.sections@.len(),
            scanned(snapshot.pe.sections@[section_index as int], snapshot.bytes@.len() as int),
            section_start == snapshot.pe.sections@[section_index as int].virtual_address,
            section_bytes@ == scanned_bytes(
                snapshot.bytes@,
                snapshot.pe.sections@[section_index as int],
            ),
            file is Some ==> file->0.wf(),
            context == (PaddingContext {
                base_address,
                snapshot: *snapshot,
                file: match file {
                    Some(file) => Some(*file),
                    None => None,
                },
                coverage: coverage@,
                coverage_usable,
            }),
            catalog_summaries(summaries),
            log.holds(
                summaries,
                hits + raw_hits_in(
                    base_address,
                    *snapshot,
                    section_index as int,
                    offset as int,
                ),
            ),
            padding.holds(padding_in(context, section_index as int, offset as int, runs).runs),
            match run_start {
                Some(start) => padding_in(
                    context,
                    section_index as int,
                    offset as int,
                    runs,
                ).open_at == Some(start as int) && start < offset,
                None => padding_in(
                    context,
                    section_index as int,
                    offset as int,
                    runs,
                ).open_at is None,
            },
            crate::progress::due_position(offset as int, next_progress_offset),
            progress.updates() == earlier + interval_updates(
                completed_bytes,
                offset as int,
                total_bytes,
            ),
        decreases size - offset,
    {
        let ghost found = raw_hits_in(
            base_address,
            *snapshot,
            section_index as int,
            offset as int,
        );
        let ghost state = padding_in(context, section_index as int, offset as int, runs);
        next_progress_offset =
        report_position(
            progress,
            offset,
            next_progress_offset,
            completed_bytes,
            total_bytes,
            Ghost(earlier),
        );
        let rva: usize = section_start + offset;
        record_raw_matches_at(
            base_address,
            snapshot,
            section_index,
            section_bytes,
            offset,
            opcodes,
            log,
            Ghost(summaries),
            Ghost(hits + found),
        );
        proof {
            let here = super::raw::raw_hits_at(
                base_address,
                *snapshot,
                section_index as int,
                offset as int,
                catalog().len() as int,
            );
            assert((hits + found) + here =~= hits + (found + here));
        }
        if is_likely_padding(snapshot, file, coverage, coverage_usable, rva, Ghost(context)) {
            if run_start.is_none() {
                run_start = Some(offset);
            }
        } else {
            match run_start {
                Some(start) => {
                    record_padding_run(
                        base_address,
                        snapshot,
                        section_index,
                        start,
                        offset,
                        padding,
                        Ghost(context),
                        Ghost(state),
                    );
                    run_start = None;
                },
                None => {},
            }
        }
        offset += 1;
    }
    match run_start {
        Some(start) => {
            record_padding_run(
                base_address,
                snapshot,
                section_index,
                start,
                size,
                padding,
                Ghost(context),
                Ghost(padding_in(context, section_index as int, size as int, runs)),
            );
        },
        None => {},
    }
}

/// Records raw occurrences and padding runs of every scanned section.
fn scan_sections<P: Progress>(
    base_address: usize,
    snapshot: &ValidatedPeSnapshot,
    file: Option<&ValidatedPeFile>,
    coverage: &ProcessDecodeBitmap,
    coverage_usable: bool,
    opcodes: &[OpcodeBytecode],
    log: &mut RawOpcodeLog,
    padding: &mut PaddingLog,
    total_bytes: usize,
    progress: &mut P,
    Ghost(context): Ghost<PaddingContext>,
    Ghost(summaries): Ghost<Seq<SummaryView>>,
)
    requires
        opcodes@.len() == catalog().len(),
        forall|i: int| 0 <= i < opcodes@.len() ==> (#[trigger] opcodes@[i])@ == catalog()[i],
        file is Some ==> file->0.wf(),
        context == (PaddingContext {
            base_address,
            snapshot: *snapshot,
            file: match file {
                Some(file) => Some(*file),
                None => None,
            },
            coverage: coverage@,
            coverage_usable,
        }),
        catalog_summaries(summaries),
        old(log).holds(summaries, Seq::empty()),
        old(padding).holds(Seq::empty()),
    ensures
        final(log).holds(
            summaries,
            raw_hits(base_address, *snapshot, snapshot.pe.sections@.len() as int),
        ),
        final(padding).holds(padding_runs(context, snapshot.pe.sections@.len() as int)),
        final(progress).updates() == old(progress).updates() + scan_updates(
            snapshot.pe.sections@,
            snapshot.pe.sections@.len() as int,
            snapshot.bytes@.len() as int,
            total_bytes,
        ),
{
    let ghost earlier = progress.updates();
    let mut completed_bytes: usize = 0;
    let mut index: usize = 0;
    progress.update(0, total_bytes);
    assert(progress.updates() =~= earlier + scan_updates(
        snapshot.pe.sections@,
        0,
        snapshot.bytes@.len() as int,
        total_bytes,
    ));
    while index < snapshot.pe.sections.len()
        invariant
            index <= snapshot.pe.sections@.len(),
            opcodes@.len() == catalog().len(),
            forall|i: int| 0 <= i < opcodes@.len() ==> (#[trigger] opcodes@[i])@ == catalog()[i],
            file is Some ==> file->0.wf(),
            context == (PaddingContext {
                base_address,
                snapshot: *snapshot,
                file: match file {
                    Some(file) => Some(*file),
                    None => None,
                },
                coverage: coverage@,
                coverage_usable,
            }),
            catalog_summaries(summaries),
            log.holds(summaries, raw_hits(base_address, *snapshot, index as int)),
            padding.holds(padding_runs(context, index as int)),
            completed_bytes == executable_bytes(
                snapshot.pe.sections@,
                index as int,
                snapshot.bytes@.len() as int,
            ),
            progress.updates() == earlier + scan_updates(
                snapshot.pe.sections@,
                index as int,
                snapshot.bytes@.len() as int,
                total_bytes,
            ),
        decreases snapshot.pe.sections.len() - index,
    {
        let ghost before = progress.updates();
        match scan_range(&snapshot.pe.sections[index], snapshot.bytes.len()) {
            Some((section_start, section_end)) => {
                scan_section(
                    base_address,
                    snapshot,
                    file,
                    coverage,
                    coverage_usable,
                    opcodes,
                    index,
                    section_start,
                    section_end,
                    log,
                    padding,
                    completed_bytes,
                    total_bytes,
                    progress,
                    Ghost(context),
                    Ghost(summaries),
                    Ghost(raw_hits(base_address, *snapshot, index as int)),
                    Ghost(padding_runs(context, index as int)),
                );
                let ghost intervals = interval_updates(
                    completed_bytes,
                    section_end - section_start,
                    total_bytes,
                );
                completed_bytes = completed_bytes.saturating_add(section_end - section_start);
                progress.update(completed_bytes, total_bytes);
                assert(progress.updates() =~= earlier + scan_updates(
                    snapshot.pe.sections@,
                    index + 1,
                    snapshot.bytes@.len() as int,
                    total_bytes,
                ));
            },
            None => {},
        }
        index += 1;
    }
}

/// Whether a decode is complete enough to tell padding from code.
pub open spec fn coverage_usable(decoded: ProcessDecodedOpcodeScan) -> bool {
    &&& decoded.coverage_available
    &&& decoded.current_instruction_count != 0
    &&& decoded.error_count == 0
    &&& !decoded.limit_reached
}

/// What the collection holds of the image, given how far the raw executable is trusted, which
/// functions seeded the decode, and what the decode found.
pub open spec fn collection_summarizes(
    c: ProcessOpcodeCollection,
    process: ValidatedProcessPe,
    snapshot: ValidatedPeSnapshot,
    file: Option<ValidatedPeFile>,
    decoded: ProcessDecodedOpcodeScan,
) -> bool {
    let base_address = process.image.base_address;
    let count = snapshot.pe.sections@.len() as int;
    let occurrences = raw_hits(base_address, snapshot, count);
    let padding = PaddingLog {
        run_count: c.padding_candidate_run_count,
        byte_count: c.padding_candidate_byte_count,
        samples: c.padding_samples,
    };
    let context = PaddingContext {
        base_address,
        snapshot,
        file,
        coverage: decoded.decoded_coverage@,
        coverage_usable: coverage_usable(decoded),
    };
    &&& c.module_base_address == base_address
    &&& c.module_size == process.image.image_size
    &&& c.scan_complete == executable_complete(
        snapshot.pe.sections@,
        snapshot.unavailable_ranges@,
    )
    &&& c.decoded_seed_count == decoded.seed_count
    &&& c.decoded_instruction_count == decoded.instruction_count
    &&& c.current_decoded_instruction_count == decoded.current_instruction_count
    &&& c.decoded_byte_count == decoded.byte_count
    &&& c.decode_error_count == decoded.error_count
    &&& c.decode_limit_reached == decoded.limit_reached
    &&& c.hit_count == decoded.log.hit_count
    &&& c.hits_truncated == decoded.log.hits_truncated
    &&& ordered(c.hits@)
    &&& c.hits@.to_multiset() == decoded.log.hits@.to_multiset()
    &&& ordered(c.raw_matches@)
    &&& exists|kept: Seq<ProcessOpcodeRawHit>| #[trigger]
        kept.to_multiset() == c.raw_matches@.to_multiset() && raw_views(kept)
            == occurrences.subrange(0, kept.len() as int)
    &&& c.raw_matches@.len() <= occurrences.len()
    &&& c.raw_matches_truncated == (c.raw_matches@.len() < occurrences.len())
    &&& c.raw_match_count == super::raw::saturated(occurrences.len())
    &&& summary_views(c.raw_summaries@) == with_match_counts(
        summary_views(decoded.log.raw_summaries@),
        occurrences,
    )
    &&& padding.holds(padding_runs(context, count))
    &&& c.unavailable_ranges@ == snapshot.unavailable_ranges@
}

/// How far the raw executable and the mapped runtime functions are trusted.
#[derive(Clone, Debug, Eq, PartialEq)]
pub struct BaselineTrust {
    pub evaluation: BackingEvaluation,
    pub differences_enabled: bool,
    pub functions_trusted: bool,
    pub function_metadata_present: bool,
    pub function_reason: Option<RuntimeFunctionMismatch>,
}

/// Whether relocation facts allow mapped bytes to be compared with raw ones.
pub open spec fn relocations_settled(status: ProcessOpcodeRelocationStatus) -> bool {
    status == ProcessOpcodeRelocationStatus::NotRequired || status
        == ProcessOpcodeRelocationStatus::Validated
}

impl BaselineTrust {
    /// Runtime functions seed the decode when they are exactly those of a matched executable;
    /// differences are reported when relocations are settled too.
    pub open spec fn decided(
        &self,
        file: Option<ValidatedPeFile>,
        functions: Seq<RuntimeFunctionRange>,
    ) -> bool {
        &&& match self.evaluation.pe {
            Some(pe) => {
                &&& file is Some
                &&& match runtime_function_check(file->0, pe, functions) {
                    Ok(present) => {
                        &&& self.functions_trusted
                        &&& self.function_metadata_present == present
                        &&& self.function_reason is None
                    },
                    Err(reason) => {
                        &&& !self.functions_trusted
                        &&& !self.function_metadata_present
                        &&& self.function_reason == Some(reason)
                    },
                }
            },
            None => {
                &&& !self.functions_trusted
                &&& !self.function_metadata_present
                &&& self.function_reason is None
            },
        }
        &&& self.differences_enabled == (self.evaluation.status
            == ProcessOpcodeBackingStatus::Matched && self.function_reason is None
            && relocations_settled(self.evaluation.relocation_status))
    }
}

/// Decides how far the raw executable and the mapped runtime functions are trusted.
pub fn decide_baseline_trust(
    process: &ValidatedProcessPe,
    backing_file: Result<&ValidatedPeFile, &FileValidationError>,
    runtime_functions: &[RuntimeFunctionRange],
) -> (r: BaselineTrust)
    requires
        backing_file is Ok ==> backing_file->Ok_0.wf(),
    ensures
        match backing_file {
            Ok(file) => {
                &&& evaluated_file(process.image, *file, r.evaluation)
                &&& r.decided(Some(*file), runtime_functions@)
            },
            Err(error) => {
                &&& rejected_file(*error, r.evaluation)
                &&& r.decided(None, runtime_functions@)
            },
        },
        r.evaluation.pe is Some ==> backing_file is Ok,
{
    let evaluation = evaluate_backing_file(&process.image, backing_file);
    let mut functions_trusted: bool = false;
    let mut function_metadata_present: bool = false;
    let mut function_reason: Option<RuntimeFunctionMismatch> = None;
    match backing_file {
        Ok(file) => match &evaluation.pe {
            Some(pe) => {
                match validate_runtime_functions_against_backing(file, pe, runtime_functions) {
                    Ok(present) => {
                        functions_trusted = true;
                        function_metadata_present = present;
                    },
                    Err(reason) => {
                        function_reason = Some(reason);
                    },
                }
            },
            None => {},
        },
        Err(_) => {},
    }
    let differences_enabled: bool = evaluation.status == ProcessOpcodeBackingStatus::Matched
        && function_reason.is_none() && (evaluation.relocation_status
        == ProcessOpcodeRelocationStatus::NotRequired || evaluation.relocation_status
        == ProcessOpcodeRelocationStatus::Validated);
    BaselineTrust {
        evaluation,
        differences_enabled,
        functions_trusted,
        function_metadata_present,
        function_reason,
    }
}

/// The runtime functions that seed a decode.
pub open spec fn trusted_functions(
    trust: BaselineTrust,
    functions: Seq<RuntimeFunctionRange>,
) -> Seq<RuntimeFunctionRange> {
    if trust.functions_trusted {
        functions
    } else {
        Seq::empty()
    }
}

/// Summarizes a decode and the raw bytes of every executable section.
pub fn summarize_opcodes<P: Progress>(
    process: &ValidatedProcessPe,
    snapshot: &ValidatedPeSnapshot,
    file: Option<&ValidatedPeFile>,
    trust: BaselineTrust,
    trusted_function_count: usize,
    decoded: ProcessDecodedOpcodeScan,
    progress: &mut P,
) -> (r: ProcessOpcodeCollection)
    requires
        file is Some ==> file->0.wf(),
        catalog_summaries(summary_views(decoded.log.raw_summaries@)),
        forall|j: int|
            0 <= j < decoded.log.raw_summaries@.len() ==> (
            #[trigger] decoded.log.raw_summaries@[j]).match_count == 0,
    ensures
        collection_summarizes(
            r,
            *process,
            *snapshot,
            match file {
                Some(file) => Some(*file),
                None => None,
            },
            decoded,
        ),
        r.backing_status == trust.evaluation.status,
        r.backing_reason == trust.evaluation.reason,
        r.relocation_status == trust.evaluation.relocation_status,
        r.relocation_reason == trust.evaluation.relocation_reason,
        r.mapped_trap_difference_detection_enabled == trust.differences_enabled,
        r.runtime_function_seed_metadata_present == trust.function_metadata_present,
        r.runtime_function_seed_count == trusted_function_count,
        r.runtime_function_seed_reason == trust.function_reason,
        final(progress).updates() == old(progress).updates() + scan_updates(
            snapshot.pe.sections@,
            snapshot.pe.sections@.len() as int,
            snapshot.bytes@.len() as int,
            executable_bytes(
                snapshot.pe.sections@,
                snapshot.pe.sections@.len() as int,
                snapshot.bytes@.len() as int,
            ),
        ),
{
    let base_address: usize = process.image.base_address;
    let scan_complete: bool = is_executable_complete(snapshot);
    let total_bytes: usize = count_executable_bytes(&snapshot.pe.sections, snapshot.bytes.len());
    let opcodes = breakpoint_opcodes();
    let usable: bool = decoded.coverage_available && decoded.current_instruction_count != 0
        && decoded.error_count == 0 && !decoded.limit_reached;
    let ghost summaries = summary_views(decoded.log.raw_summaries@);
    let ghost context = PaddingContext {
        base_address,
        snapshot: *snapshot,
        file: match file {
            Some(file) => Some(*file),
            None => None,
        },
        coverage: decoded.decoded_coverage@,
        coverage_usable: usable,
    };
    let mut log = RawOpcodeLog {
        matches: Vec::new(),
        match_count: 0,
        truncated: false,
        summaries: decoded.log.raw_summaries,
    };
    proof {
        assert forall|j: int| 0 <= j < summaries.len() implies summaries[j] == with_match_counts(
            summaries,
            Seq::empty(),
        )[j] by {
            assert(decoded.log.raw_summaries@[j].match_count == 0);
        }
        assert(summaries =~= with_match_counts(summaries, Seq::empty()));
        assert(raw_views(log.matches@) =~= Seq::<RawHitView>::empty().subrange(0, 0));
    }
    let mut padding = PaddingLog::new();
    scan_sections(
        base_address,
        snapshot,
        file,
        &decoded.decoded_coverage,
        usable,
        &opcodes,
        &mut log,
        &mut padding,
        total_bytes,
        progress,
        Ghost(context),
        Ghost(summaries),
    );
    let ghost kept = log.matches@;
    let hits = sort_records(decoded.log.hits);
    let raw_matches = sort_records(log.matches);
    proof {
        broadcast use vstd::seq_lib::group_to_multiset_ensures;

        assert(raw_matches@.len() == kept.len()) by {
            vstd::seq_lib::to_multiset_len(raw_matches@);
            vstd::seq_lib::to_multiset_len(kept);
        }
        assert(kept.to_multiset() == raw_matches@.to_multiset());
    }
    ProcessOpcodeCollection {
        module_base_address: base_address,
        module_size: process.image.image_size,
        scan_complete,
        backing_status: trust.evaluation.status,
        backing_reason: trust.evaluation.reason,
        relocation_status: trust.evaluation.relocation_status,
        relocation_reason: trust.evaluation.relocation_reason,
        mapped_trap_difference_detection_enabled: trust.differences_enabled,
        runtime_function_seed_metadata_present: trust.function_metadata_present,
        runtime_function_seed_count: trusted_function_count,
        runtime_function_seed_reason: trust.function_reason,
        decoded_seed_count: decoded.seed_count,
        decoded_instruction_count: decoded.instruction_count,
        current_decoded_instruction_count: decoded.current_instruction_count,
        decoded_byte_count: decoded.byte_count,
        decode_error_count: decoded.error_count,
        decode_limit_reached: decoded.limit_reached,
        hit_count: decoded.log.hit_count,
        hits_truncated: decoded.log.hits_truncated,
        hits,
        raw_match_count: log.match_count,
        raw_matches_truncated: log.truncated,
        raw_matches,
        raw_summaries: log.summaries,
        padding_candidate_run_count: padding.run_count,
        padding_candidate_byte_count: padding.byte_count,
        padding_samples: padding.samples,
        unavailable_ranges: vstd::slice::slice_to_vec(&snapshot.unavailable_ranges),
    }
}

/// Whether summaries keep the opcodes and match counts of others.
pub open spec fn same_matches(left: Seq<SummaryView>, right: Seq<SummaryView>) -> bool {
    &&& left.len() == right.len()
    &&& forall|j: int|
        0 <= j < left.len() ==> (#[trigger] left[j]).opcode == right[j].opcode
            && left[j].match_count == right[j].match_count
}

/// A named summary lies in the list.
proof fn lemma_first_named(summaries: Seq<SummaryView>, index: int, name: Seq<char>)
    requires
        0 <= index,
    ensures
        first_named(summaries, index, name) is Some ==> index <= first_named(
            summaries,
            index,
            name,
        )->0 < summaries.len(),
    decreases summaries.len() - index,
{
    if index < summaries.len() && summaries[index].opcode.name != name {
        lemma_first_named(summaries, index + 1, name);
    }
}

/// A decode of the raw executable leaves opcodes and match counts of the summaries alone.
proof fn lemma_decode_keeps_matches(
    context: BackingContext,
    initial: BackingState,
    grants: Seq<(bool, bool)>,
)
    ensures
        same_matches(
            backing_run(context, initial, grants).log.summaries,
            initial.log.summaries,
        ),
    decreases grants.len(),
{
    if grants.len() > 0 {
        lemma_decode_keeps_matches(context, initial, grants.drop_last());
        let before = backing_run(context, initial, grants.drop_last());
        assert forall|name: Seq<char>, evidence: ProcessOpcodeEvidence| same_matches(
            #[trigger] counted(before.log.summaries, name, evidence),
            before.log.summaries,
        ) by {
            lemma_first_named(before.log.summaries, 0, name);
        }
    }
}

/// What the decode of a snapshot found: nothing without a matched executable, else what decoding
/// that executable beside the mapped bytes ends in.
pub open spec fn decoded_from(
    process: ValidatedProcessPe,
    snapshot: ValidatedPeSnapshot,
    file: Option<ValidatedPeFile>,
    trust: BaselineTrust,
    functions: Seq<RuntimeFunctionRange>,
    decoded: ProcessDecodedOpcodeScan,
) -> bool {
    if trust.evaluation.pe is Some {
        exists|current: ProcessInstructionBoundaryScan| #[trigger]
            boundary_outcome(
                process.image.base_address,
                process.image.entry_point_rva,
                snapshot,
                trusted_functions(trust, functions),
                current,
            ) && decoded_outcome(
                backing_context(
                    process,
                    snapshot,
                    file->0,
                    trusted_functions(trust, functions),
                    trust.evaluation.relocation_ranges@,
                    current,
                    trust.differences_enabled,
                ),
                process.image.entry_point_rva,
                zero_summaries(),
                current,
                decoded,
            )
    } else {
        &&& decoded.log.hits@.len() == 0
        &&& decoded.log.hit_count == 0
        &&& !decoded.log.hits_truncated
        &&& summary_views(decoded.log.raw_summaries@) == zero_summaries()
        &&& decoded.decoded_coverage@ == Set::<int>::empty()
        &&& !decoded.coverage_available
        &&& decoded.seed_count == 0
        &&& decoded.instruction_count == 0
        &&& decoded.current_instruction_count == 0
        &&& decoded.byte_count == 0
        &&& decoded.error_count == 0
        &&& !decoded.limit_reached
    }
}

/// The collection comes from this trust decision and this decode.
pub open spec fn collected(
    c: ProcessOpcodeCollection,
    process: ValidatedProcessPe,
    snapshot: ValidatedPeSnapshot,
    backing_file: Result<&ValidatedPeFile, &FileValidationError>,
    functions: Seq<RuntimeFunctionRange>,
    trust: BaselineTrust,
    decoded: ProcessDecodedOpcodeScan,
) -> bool {
    let file = match backing_file {
        Ok(file) => Some(*file),
        Err(_) => None,
    };
    let matched = if trust.evaluation.pe is Some {
        file
    } else {
        None
    };
    &&& match backing_file {
        Ok(file) => evaluated_file(process.image, *file, trust.evaluation),
        Err(error) => rejected_file(*error, trust.evaluation),
    }
    &&& trust.decided(file, functions)
    &&& decoded_from(process, snapshot, file, trust, functions, decoded)
    &&& collection_summarizes(c, process, snapshot, matched, decoded)
    &&& c.backing_status == trust.evaluation.status
    &&& c.backing_reason == trust.evaluation.reason
    &&& c.relocation_status == trust.evaluation.relocation_status
    &&& c.relocation_reason == trust.evaluation.relocation_reason
    &&& c.mapped_trap_difference_detection_enabled == trust.differences_enabled
    &&& c.runtime_function_seed_metadata_present == trust.function_metadata_present
    &&& c.runtime_function_seed_count == trusted_functions(trust, functions).len()
    &&& c.runtime_function_seed_reason == trust.function_reason
}

/// A decode of a snapshot leaves the summaries of the catalog without match counts.
proof fn lemma_decoded_summaries(
    process: ValidatedProcessPe,
    snapshot: ValidatedPeSnapshot,
    file: Option<ValidatedPeFile>,
    trust: BaselineTrust,
    functions: Seq<RuntimeFunctionRange>,
    decoded: ProcessDecodedOpcodeScan,
)
    requires
        decoded_from(process, snapshot, file, trust, functions, decoded),
    ensures
        same_matches(summary_views(decoded.log.raw_summaries@), zero_summaries()),
{
    if trust.evaluation.pe is Some {
        let current = choose|current: ProcessInstructionBoundaryScan| #[trigger]
            boundary_outcome(
                process.image.base_address,
                process.image.entry_point_rva,
                snapshot,
                trusted_functions(trust, functions),
                current,
            ) && decoded_outcome(
                backing_context(
                    process,
                    snapshot,
                    file->0,
                    trusted_functions(trust, functions),
                    trust.evaluation.relocation_ranges@,
                    current,
                    trust.differences_enabled,
                ),
                process.image.entry_point_rva,
                zero_summaries(),
                current,
                decoded,
            );
        let context = backing_context(
            process,
            snapshot,
            file->0,
            trusted_functions(trust, functions),
            trust.evaluation.relocation_ranges@,
            current,
            trust.differences_enabled,
        );
        let queue = seeded_queue(
            snapshot.pe.sections@,
            snapshot.bytes@.len() as int,
            trusted_functions(trust, functions),
            process.image.entry_point_rva,
        );
        if !decoded_scan_failed(decoded, zero_summaries(), decoded.limit_reached) {
            let grants = choose|grants: Seq<(bool, bool)>|
                {
                    let state = #[trigger] backing_run(
                        context,
                        initial_backing(queue->0, zero_summaries()),
                        grants,
                    );
                    state.traversal.done && decoded_scan_is(decoded, queue->0, state, current)
                };
            lemma_decode_keeps_matches(
                context,
                initial_backing(queue->0, zero_summaries()),
                grants,
            );
        }
    }
}

/// Classifies decoded x64 debug instructions and summarizes raw opcode bytes.
pub fn collect_opcode_hits_from_snapshot<P: Progress>(
    process: &ValidatedProcessPe,
    snapshot: &ValidatedPeSnapshot,
    backing_file: Result<&ValidatedPeFile, &FileValidationError>,
    runtime_functions: &[RuntimeFunctionRange],
    progress: &mut P,
) -> (r: ProcessOpcodeCollection)
    requires
        functions_sorted(runtime_functions@),
        backing_file is Ok ==> backing_file->Ok_0.wf(),
    ensures
        exists|trust: BaselineTrust, decoded: ProcessDecodedOpcodeScan| #[trigger]
            collected(
                r,
                *process,
                *snapshot,
                backing_file,
                runtime_functions@,
                trust,
                decoded,
            ),
        final(progress).updates() == old(progress).updates() + scan_updates(
            snapshot.pe.sections@,
            snapshot.pe.sections@.len() as int,
            snapshot.bytes@.len() as int,
            executable_bytes(
                snapshot.pe.sections@,
                snapshot.pe.sections@.len() as int,
                snapshot.bytes@.len() as int,
            ),
        ),
{
    let trust = decide_baseline_trust(process, backing_file, runtime_functions);
    let seeds: &[RuntimeFunctionRange] = if trust.functions_trusted {
        runtime_functions
    } else {
        vstd::slice::slice_subrange(runtime_functions, 0, 0)
    };
    assert(seeds@ =~= trusted_functions(trust, runtime_functions@));
    let summaries = create_raw_summaries(&breakpoint_opcodes());
    let matched: Option<&ValidatedPeFile> = if trust.evaluation.pe.is_some() {
        match backing_file {
            Ok(file) => Some(file),
            Err(_) => None,
        }
    } else {
        None
    };
    let decoded = match matched {
        Some(file) => collect_decoded_opcode_hits(
            process,
            snapshot,
            file,
            seeds,
            &trust.evaluation.relocation_ranges,
            summaries,
            trust.differences_enabled,
        ),
        None => empty_decoded_opcode_scan(snapshot.bytes.len(), 0, false, summaries),
    };
    let ghost file = match backing_file {
        Ok(file) => Some(*file),
        Err(_) => None,
    };
    proof {
        lemma_decoded_summaries(
            *process,
            *snapshot,
            file,
            trust,
            runtime_functions@,
            decoded,
        );
        let views = summary_views(decoded.log.raw_summaries@);
        assert(views.len() == decoded.log.raw_summaries@.len());
        assert(same_matches(views, zero_summaries()));
        assert(zero_summaries().len() == catalog().len());
        assert forall|j: int| 0 <= j < decoded.log.raw_summaries@.len() implies (
        #[trigger] decoded.log.raw_summaries@[j]).match_count == 0 by {
            assert(views[j] == decoded.log.raw_summaries@[j]@);
            assert(views[j].match_count == zero_summaries()[j].match_count);
            assert(zero_summaries()[j].match_count == 0);
        }
    }
    let ghost decided = trust;
    let r = summarize_opcodes(
        process,
        snapshot,
        matched,
        trust,
        seeds.len(),
        decoded,
        progress,
    );
    assert(collected(
        r,
        *process,
        *snapshot,
        backing_file,
        runtime_functions@,
        decided,
        decoded,
    ));
    r
}

} // verus!
