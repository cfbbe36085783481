//! Runs of unchanged `CC` bytes outside decoded control flow.

use vstd::prelude::*;

use super::bitmap::ProcessDecodeBitmap;
use super::raw::saturated;
use crate::backing::{backing_byte_at_rva, ValidatedPeFile};
use crate::pe::locate::get_file_offset_from_pe;
use crate::pe::types::ValidatedPeSnapshot;
use crate::ranges::{avoids_all, avoids_unavailable};
use crate::scan::{scan_size, scanned};

verus! {

/// Maximum likely-padding runs retained as analyst-facing samples.
pub const MAXIMUM_PADDING_RUN_SAMPLES: usize = 32;

/// Describes one unchanged consecutive `CC` run outside decoded control flow.
#[derive(Clone, Copy, Debug, Eq, PartialEq, Structural)]
pub struct ProcessOpcodePaddingSample {
    pub section_index: usize,
    pub address: Option<usize>,
    pub rva: usize,
    pub file_offset: Option<usize>,
    pub length: usize,
}

/// What decides whether a byte is likely padding.
pub ghost struct PaddingContext {
    pub base_address: usize,
    pub snapshot: ValidatedPeSnapshot,
    pub file: Option<ValidatedPeFile>,
    pub coverage: Set<int>,
    pub coverage_usable: bool,
}

/// Whether the byte at `rva` is likely padding: available, `CC` in the process and in the raw
/// executable, and outside decoded instructions of a usable decode.
pub open spec fn likely_padding(context: PaddingContext, rva: int) -> bool {
    &&& context.coverage_usable
    &&& avoids_all(context.snapshot.unavailable_ranges@, rva, 1)
    &&& context.snapshot.bytes@[rva] == 0xCC
    &&& !context.coverage.contains(rva)
    &&& context.file is Some
    &&& context.file->0.byte_at(rva) == Some(0xCCu8)
}

/// The record of a run at `offset` of a section.
pub open spec fn padding_sample(
    context: PaddingContext,
    section_index: int,
    offset: int,
    length: int,
) -> ProcessOpcodePaddingSample {
    let start = context.snapshot.pe.sections@[section_index].virtual_address;
    let rva = (start + offset) as usize;
    ProcessOpcodePaddingSample {
        section_index: section_index as usize,
        address: context.base_address.checked_add(rva),
        rva,
        file_offset: context.snapshot.pe.file_offset(rva as int),
        length: length as usize,
    }
}

/// Finished runs, and the offset at which an unfinished one began.
pub ghost struct PaddingState {
    pub runs: Seq<ProcessOpcodePaddingSample>,
    pub open_at: Option<int>,
}

/// The runs with the unfinished one ended at `offset`; a single byte is no run.
pub open spec fn finished_runs(
    context: PaddingContext,
    section_index: int,
    state: PaddingState,
    offset: int,
) -> Seq<ProcessOpcodePaddingSample> {
    match state.open_at {
        Some(start) => if offset - start >= 2 {
            state.runs.push(padding_sample(context, section_index, start, offset - start))
        } else {
            state.runs
        },
        None => state.runs,
    }
}

/// The runs after the first `offsets` offsets of a section, `runs` being found before it.
pub open spec fn padding_in(
    context: PaddingContext,
    section_index: int,
    offsets: int,
    runs: Seq<ProcessOpcodePaddingSample>,
) -> PaddingState
    decreases offsets,
{
    if offsets <= 0 {
        PaddingState { runs, open_at: None }
    } else {
        let before = padding_in(context, section_index, offsets - 1, runs);
        let start = context.snapshot.pe.sections@[section_index].virtual_address;
        if likely_padding(context, start + offsets - 1) {
            PaddingState {
                runs: before.runs,
                open_at: if before.open_at is Some {
                    before.open_at
                } else {
                    Some(offsets - 1)
                },
            }
        } else {
            PaddingState {
                runs: finished_runs(context, section_index, before, offsets - 1),
                open_at: None,
            }
        }
    }
}

/// Every run of likely padding in the scanned sections among the first `count`.
pub open spec fn padding_runs(context: PaddingContext, count: int) -> Seq<
    ProcessOpcodePaddingSample,
>
    decreases count,
{
    if count <= 0 {
        Seq::empty()
    } else {
        let section = context.snapshot.pe.sections@[count - 1];
        let len = context.snapshot.bytes@.len() as int;
        let before = padding_runs(context, count - 1);
        if scanned(section, len) {
            let size = scan_size(section, len);
            finished_runs(
                context,
                count - 1,
                padding_in(context, count - 1, size, before),
                size,
            )
        } else {
            before
        }
    }
}

/// The bytes in `runs`.
pub open spec fn run_bytes(runs: Seq<ProcessOpcodePaddingSample>) -> usize
    decreases runs.len(),
{
    if runs.len() == 0 {
        0
    } else {
        run_bytes(runs.drop_last()).saturating_add(runs.last().length)
    }
}

/// Counts of padding runs and the first few of them.
pub struct PaddingLog {
    pub run_count: usize,
    pub byte_count: usize,
    pub samples: Vec<ProcessOpcodePaddingSample>,
}

impl PaddingLog {
    /// The log holds `runs`: all are counted, the first ones are kept.
    pub open spec fn holds(&self, runs: Seq<ProcessOpcodePaddingSample>) -> bool {
        &&& self.run_count == saturated(runs.len())
        &&& self.byte_count == run_bytes(runs)
        &&& self.samples@ == runs.subrange(
            0,
            if runs.len() < MAXIMUM_PADDING_RUN_SAMPLES {
                runs.len() as int
            } else {
                MAXIMUM_PADDING_RUN_SAMPLES as int
            },
        )
    }

    /// An empty log.
    pub fn new() -> (r: PaddingLog)
        ensures
            r.holds(Seq::empty()),
    {
        let log = PaddingLog { run_count: 0, byte_count: 0, samples: Vec::new() };
        assert(log.samples@ =~= Seq::<ProcessOpcodePaddingSample>::empty().subrange(0, 0));
        log
    }
}

/// Retains one bounded sample and aggregates an unchanged out-of-flow `CC` run.
pub(crate) fn record_padding_run(
    base_address: usize,
    snapshot: &ValidatedPeSnapshot,
    section_index: usize,
    start_offset: usize,
    end_offset: usize,
    log: &mut PaddingLog,
    Ghost(context): Ghost<PaddingContext>,
    Ghost(state): Ghost<PaddingState>,
)
    requires
        context.base_address == base_address,
        context.snapshot == *snapshot,
        section_index < snapshot.pe.sections@.len(),
        start_offset <= end_offset,
        snapshot.pe.sections@[section_index as int].virtual_address + end_offset <= usize::MAX,
        state.open_at == Some(start_offset as int),
        old(log).holds(state.runs),
    ensures
        final(log).holds(
            finished_runs(context, section_index as int, state, end_offset as int),
        ),
{
    let length: usize = end_offset - start_offset;
    if length < 2 {
        return;
    }
    let rva: usize = snapshot.pe.sections[section_index].virtual_address as usize + start_offset;
    let sample = ProcessOpcodePaddingSample {
        section_index,
        address: base_address.checked_add(rva),
        rva,
        file_offset: get_file_offset_from_pe(&snapshot.pe, rva),
        length,
    };
    let ghost runs = state.runs;
    let ghost more = runs.push(sample);
    assert(more.drop_last() =~= runs);
    log.run_count = log.run_count.saturating_add(1);
    log.byte_count = log.byte_count.saturating_add(length);
    if log.samples.len() < MAXIMUM_PADDING_RUN_SAMPLES {
        log.samples.push(sample);
        assert(log.samples@ =~= more.subrange(0, more.len() as int));
    } else {
        assert(log.samples@ =~= more.subrange(0, MAXIMUM_PADDING_RUN_SAMPLES as int));
    }
}

/// Reports whether the byte at an RVA is likely padding.
pub(crate) fn is_likely_padding(
    snapshot: &ValidatedPeSnapshot,
    file: Option<&ValidatedPeFile>,
    coverage: &ProcessDecodeBitmap,
    coverage_usable: bool,
    rva: usize,
    Ghost(context): Ghost<PaddingContext>,
) -> (r: bool)
    requires
        rva < snapshot.bytes@.len(),
        file is Some ==> file->0.wf(),
        context.snapshot == *snapshot,
        context.file == (match file {
            Some(file) => Some(*file),
            None => None,
        }),
        context.coverage == coverage@,
        context.coverage_usable == coverage_usable,
    ensures
        r == likely_padding(context, rva as int),
{
    if !coverage_usable || snapshot.bytes[rva] != 0xCC || coverage.contains(rva)
        || !avoids_unavailable(&snapshot.unavailable_ranges, rva, 1) {
        return false;
    }
    match file {
        Some(file) => match backing_byte_at_rva(file, rva) {
            Some(byte) => byte == 0xCC,
            None => false,
        },
        None => false,
    }
}

} // verus!
