//! Recursive decoding of a mapped image and of its raw executable.
//!
//! Each decode is a run of single steps: taking the next task, or decoding one instruction of the
//! task at hand. Whether memory is granted where a step asks for some is left open; everything
//! else about a step is fixed.

use vstd::prelude::*;

use super::bitmap::{is_dual_decode_hit_boundary, ProcessDecodeBitmap, WORD_BITS};
use super::catalog::{
    begins_with, bytes_at, catalog_opcode, mapped_trap_entry_at, opcode_of, trap_at, CatalogEntry,
};
use super::decode::{
    branch_target, catalog_entry_of, decode_instruction, decoded_catalog_entry,
    decoded_instruction, decoded_mnemonic, near_branch_target_rva, DecodedInstruction,
    FLOW_EXCEPTION, FLOW_INTERRUPT,
};
use super::hits::{
    build_decoded_opcode_hit, built_hit, record_decoded_opcode_hit, recorded, DecodedHitLog,
    HitLogView, ProcessOpcodeEvidence, ProcessOpcodeRawSummary,
};
use super::queue::{
    follow_flow, functions_sorted, initialize_decode_tasks, position_after_flow, queue_after_flow,
    seeded_queue, DecodePosition, DecodeQueue, ProcessDecodeTask, QueueView,
    MAXIMUM_DECODE_TASK_COUNT,
};
use super::relocation::ProcessRelocationRange;
use crate::arith::min_usize;
use crate::backing::{rva_to_file_range, ValidatedPeFile};
use crate::bytes::bytes_equal;
use crate::code_section::RuntimeFunctionRange;
use crate::pe::snapshot::{is_snapshot_range_available, snapshot_range_available};
use crate::pe::types::ValidatedPeSnapshot;
use crate::process::ValidatedProcessPe;
use crate::ranges::{overlap, ranges_overlap};

verus! {

/// Maximum decoded instruction starts retained during one process scan.
pub const MAXIMUM_DECODED_INSTRUCTION_COUNT: usize = 10_000_000;

/// Owns strict instruction starts decoded independently from current process bytes.
pub struct ProcessInstructionBoundaryScan {
    pub instruction_starts: ProcessDecodeBitmap,
    pub decoded_coverage: ProcessDecodeBitmap,
    pub instruction_count: usize,
    pub error_count: usize,
    pub limit_reached: bool,
}

/// What both decodes keep while they run.
pub ghost struct TraversalState {
    pub queue: QueueView,
    pub position: DecodePosition,
    pub starts: Set<int>,
    pub coverage: Set<int>,
    pub instruction_count: usize,
    pub error_count: usize,
    pub limit_reached: bool,
    pub done: bool,
}

/// The positions from `start` up to `end`.
pub open spec fn span(start: int, end: int) -> Set<int> {
    Set::new(|i: int| start <= i < end)
}

/// A decode that begins with `queue`.
pub open spec fn initial_traversal(queue: QueueView) -> TraversalState {
    TraversalState {
        queue,
        position: None,
        starts: Set::empty(),
        coverage: Set::empty(),
        instruction_count: 0,
        error_count: 0,
        limit_reached: false,
        done: false,
    }
}

/// The task at hand is given up with an error.
pub open spec fn failed(state: TraversalState) -> TraversalState {
    TraversalState { position: None, error_count: state.error_count.saturating_add(1), ..state }
}

/// The task at hand is left.
pub open spec fn left(state: TraversalState) -> TraversalState {
    TraversalState { position: None, ..state }
}

/// One more instruction `[rva, end)` was decoded, and its flow followed. The decode ends at the
/// limit when its branch target cannot be scheduled.
pub open spec fn advanced(
    state: TraversalState,
    snapshot: ValidatedPeSnapshot,
    functions: Seq<RuntimeFunctionRange>,
    task: ProcessDecodeTask,
    rva: usize,
    end: usize,
    flow: u32,
    target: Option<usize>,
    supported_interrupt: bool,
    granted: bool,
) -> TraversalState {
    let counted = TraversalState {
        starts: state.starts.insert(rva as int),
        coverage: state.coverage.union(span(rva as int, end as int)),
        instruction_count: state.instruction_count.saturating_add(1),
        ..state
    };
    match queue_after_flow(
        state.queue,
        snapshot.pe.sections@,
        snapshot.bytes@.len() as int,
        functions,
        flow,
        target,
        granted,
    ) {
        None => TraversalState {
            error_count: state.error_count.saturating_add(1),
            limit_reached: true,
            done: true,
            ..counted
        },
        Some(queue) => TraversalState {
            queue,
            position: position_after_flow(task, end, flow, supported_interrupt),
            ..counted
        },
    }
}

/// Whether an instruction is an interrupt that the catalog knows.
pub open spec fn known_interrupt(instruction: DecodedInstruction, bytes: Seq<u8>) -> bool {
    &&& instruction.flow_control == FLOW_INTERRUPT || instruction.flow_control == FLOW_EXCEPTION
    &&& catalog_entry_of(instruction, bytes) is Some
}

/// Decodes the mapped instruction at `rva` of `task`.
pub open spec fn mapped_decode_step(
    base_address: usize,
    snapshot: ValidatedPeSnapshot,
    functions: Seq<RuntimeFunctionRange>,
    state: TraversalState,
    task: ProcessDecodeTask,
    rva: usize,
    granted: bool,
) -> TraversalState {
    let len = snapshot.bytes@.len();
    let limit = if task.bound_end <= len {
        task.bound_end as int
    } else {
        len as int
    };
    if rva >= len || base_address + rva > usize::MAX {
        failed(state)
    } else {
        let instruction = decoded_instruction(
            snapshot.bytes@.subrange(rva as int, limit),
            (base_address + rva) as u64,
        );
        let end = rva + instruction.length;
        if instruction.length == 0 || end > limit || instruction.invalid
            || !snapshot_range_available(snapshot, rva as int, instruction.length as int) {
            failed(state)
        } else {
            advanced(
                state,
                snapshot,
                functions,
                task,
                rva,
                end as usize,
                instruction.flow_control,
                branch_target(instruction, base_address as int, len as int),
                known_interrupt(instruction, snapshot.bytes@.subrange(rva as int, end)),
                granted,
            )
        }
    }
}

/// One step of the decode of mapped bytes.
pub open spec fn mapped_step(
    base_address: usize,
    snapshot: ValidatedPeSnapshot,
    functions: Seq<RuntimeFunctionRange>,
    state: TraversalState,
    granted: bool,
) -> TraversalState {
    if state.done {
        state
    } else {
        match state.position {
            None => if state.queue.tasks.len() == 0 {
                TraversalState { done: true, ..state }
            } else {
                let task = state.queue.tasks[0];
                let rest = TraversalState {
                    queue: QueueView { tasks: state.queue.tasks.drop_first(), ..state.queue },
                    ..state
                };
                if task.rva < task.bound_start || task.rva >= task.bound_end
                    || state.starts.contains(task.rva as int) {
                    rest
                } else {
                    TraversalState { position: Some((task, task.rva)), ..rest }
                }
            },
            Some((task, rva)) => if rva >= task.bound_end {
                left(state)
            } else if state.instruction_count == MAXIMUM_DECODED_INSTRUCTION_COUNT {
                TraversalState { limit_reached: true, done: true, ..state }
            } else if state.starts.contains(rva as int) {
                left(state)
            } else {
                mapped_decode_step(base_address, snapshot, functions, state, task, rva, granted)
            },
        }
    }
}

/// The decode of mapped bytes after one step for each of `grants`.
pub open spec fn mapped_run(
    base_address: usize,
    snapshot: ValidatedPeSnapshot,
    functions: Seq<RuntimeFunctionRange>,
    initial: TraversalState,
    grants: Seq<bool>,
) -> TraversalState
    decreases grants.len(),
{
    if grants.len() == 0 {
        initial
    } else {
        mapped_step(
            base_address,
            snapshot,
            functions,
            mapped_run(base_address, snapshot, functions, initial, grants.drop_last()),
            grants.last(),
        )
    }
}

/// What holds of every state of a decode: no more instructions than the limit, and every start
/// and every covered position inside the image, starts being covered.
pub open spec fn traversal_wf(state: TraversalState, image_size: int) -> bool {
    &&& state.queue.wf()
    &&& state.instruction_count <= MAXIMUM_DECODED_INSTRUCTION_COUNT
    &&& state.starts.subset_of(state.coverage)
    &&& forall|i: int| #[trigger] state.coverage.contains(i) ==> 0 <= i < image_size
    &&& state.limit_reached ==> state.done
}

/// The scan holds what a decode state found.
pub open spec fn boundary_scan_is(
    scan: ProcessInstructionBoundaryScan,
    state: TraversalState,
) -> bool {
    &&& scan.instruction_starts@ == state.starts
    &&& scan.decoded_coverage@ == state.coverage
    &&& scan.instruction_count == state.instruction_count
    &&& scan.error_count == state.error_count
    &&& scan.limit_reached == state.limit_reached
}

/// Creates an unavailable current-process boundary result after a decode setup failure.
pub fn empty_instruction_boundary_scan(
    image_size: usize,
    error_count: usize,
    limit_reached: bool,
) -> (r: ProcessInstructionBoundaryScan)
    ensures
        r.instruction_starts@ == Set::<int>::empty(),
        r.decoded_coverage@ == Set::<int>::empty(),
        r.instruction_starts.bit_length == image_size,
        r.decoded_coverage.bit_length == image_size,
        r.instruction_count == 0,
        r.error_count == error_count,
        r.limit_reached == limit_reached,
{
    ProcessInstructionBoundaryScan {
        instruction_starts: ProcessDecodeBitmap::empty(image_size),
        decoded_coverage: ProcessDecodeBitmap::empty(image_size),
        instruction_count: 0,
        error_count,
        limit_reached,
    }
}

/// Memory granted at each of `steps` steps.
pub open spec fn all_granted(steps: nat) -> Seq<bool> {
    Seq::new(steps, |i: int| true)
}

/// What decoding mapped bytes from `queue` ends in: a completed run. It is the run in which all
/// memory was granted unless a limit is reported.
pub open spec fn mapped_decode_outcome(
    base_address: usize,
    snapshot: ValidatedPeSnapshot,
    functions: Seq<RuntimeFunctionRange>,
    queue: QueueView,
    scan: ProcessInstructionBoundaryScan,
) -> bool {
    &&& exists|grants: Seq<bool>|
        {
            let state = #[trigger] mapped_run(
                base_address,
                snapshot,
                functions,
                initial_traversal(queue),
                grants,
            );
            state.done && boundary_scan_is(scan, state)
        }
    &&& !scan.limit_reached ==> exists|steps: nat|
        {
            let state = mapped_run(
                base_address,
                snapshot,
                functions,
                initial_traversal(queue),
                #[trigger] all_granted(steps),
            );
            state.done && boundary_scan_is(scan, state)
        }
}

/// The scan of a setup that failed: for want of bitmaps, or, with the limit reported, for want of
/// a queue.
pub open spec fn boundary_scan_failed(
    scan: ProcessInstructionBoundaryScan,
    limit_reached: bool,
) -> bool {
    &&& scan.instruction_starts@ == Set::<int>::empty()
    &&& scan.decoded_coverage@ == Set::<int>::empty()
    &&& scan.instruction_count == 0
    &&& scan.error_count == 1
    &&& scan.limit_reached == limit_reached
}

/// Whether bitmaps of `len` positions can be had at all, and no more seeds than the limit allows.
pub open spec fn setup_possible(len: nat, function_count: nat) -> bool {
    len + WORD_BITS - 1 <= usize::MAX && function_count + 1 <= MAXIMUM_DECODE_TASK_COUNT
}

/// Whether a failed setup may report this: bitmaps are never refused for an empty image, and a
/// queue is only asked for when there are bitmaps.
pub open spec fn setup_failure_possible(len: nat, limit_reached: bool) -> bool {
    if limit_reached {
        len + WORD_BITS - 1 <= usize::MAX
    } else {
        len > 0
    }
}

/// What the decode of mapped bytes may end in: a setup that found no memory or too many seeds, or
/// a completed run from the seeded queue.
pub open spec fn boundary_outcome(
    base_address: usize,
    entry_point_rva: usize,
    snapshot: ValidatedPeSnapshot,
    functions: Seq<RuntimeFunctionRange>,
    scan: ProcessInstructionBoundaryScan,
) -> bool {
    let queue = seeded_queue(
        snapshot.pe.sections@,
        snapshot.bytes@.len() as int,
        functions,
        entry_point_rva,
    );
    ||| boundary_scan_failed(scan, scan.limit_reached) && setup_failure_possible(
        snapshot.bytes@.len(),
        scan.limit_reached,
    )
    ||| {
        &&& setup_possible(snapshot.bytes@.len(), functions.len())
        &&& queue is Some
        &&& mapped_decode_outcome(base_address, snapshot, functions, queue->0, scan)
    }
}

/// Allocates the two bitmaps of a decode.
fn create_bitmaps(image_size: usize) -> (r: Option<(ProcessDecodeBitmap, ProcessDecodeBitmap)>)
    ensures
        image_size + WORD_BITS - 1 > usize::MAX ==> r is None,
        image_size == 0 ==> r is Some,
        match r {
            Some((starts, coverage)) => {
                &&& starts.fresh(image_size as nat)
                &&& coverage.fresh(image_size as nat)
            },
            None => true,
        },
{
    match ProcessDecodeBitmap::new(image_size) {
        Some(starts) => match ProcessDecodeBitmap::new(image_size) {
            Some(coverage) => Some((starts, coverage)),
            None => None,
        },
        None => None,
    }
}

/// Decodes mapped bytes from `queue`, marking starts and covered bytes in empty bitmaps.
#[verifier::rlimit(40)]
pub fn decode_mapped_instructions(
    process: &ValidatedProcessPe,
    snapshot: &ValidatedPeSnapshot,
    runtime_functions: &[RuntimeFunctionRange],
    starts: ProcessDecodeBitmap,
    coverage: ProcessDecodeBitmap,
    tasks: DecodeQueue,
) -> (r: ProcessInstructionBoundaryScan)
    requires
        functions_sorted(runtime_functions@),
        starts.fresh(snapshot.bytes@.len()),
        coverage.fresh(snapshot.bytes@.len()),
        tasks@.wf(),
    ensures
        mapped_decode_outcome(
            process.image.base_address,
            *snapshot,
            runtime_functions@,
            tasks@,
            r,
        ),
        r.instruction_starts.bit_length == snapshot.bytes@.len(),
        r.decoded_coverage.bit_length == snapshot.bytes@.len(),
        r.instruction_starts@.subset_of(r.decoded_coverage@),
{
    let image_size: usize = snapshot.bytes.len();
    let mut instruction_starts = starts;
    let mut decoded_coverage = coverage;
    let mut queue = tasks;
    let base_address: usize = process.image.base_address;
    let ghost initial = initial_traversal(queue@);
    let ghost mut grants: Seq<bool> = Seq::empty();
    assert(grants =~= all_granted(0));
    let ghost mut state = initial;
    let mut position: DecodePosition = None;
    let mut instruction_count: usize = 0;
    let mut error_count: usize = 0;
    let mut limit_reached: bool = false;
    let mut done: bool = false;
    while !done
        invariant
            functions_sorted(runtime_functions@),
            base_address == process.image.base_address,
            image_size == snapshot.bytes@.len(),
            instruction_starts.bit_length == image_size,
            instruction_starts.complete(),
            decoded_coverage.bit_length == image_size,
            decoded_coverage.complete(),
            initial == initial_traversal(tasks@),
            !limit_reached ==> grants == all_granted(grants.len()),
            state == mapped_run(base_address, *snapshot, runtime_functions@, initial, grants),
            traversal_wf(state, image_size as int),
            state == (TraversalState {
                queue: queue@,
                position,
                starts: instruction_starts@,
                coverage: decoded_coverage@,
                instruction_count,
                error_count,
                limit_reached,
                done,
            }),
        decreases
                MAXIMUM_DECODED_INSTRUCTION_COUNT - instruction_count,
                MAXIMUM_DECODE_TASK_COUNT - queue@.scheduled.len(),
                queue@.tasks.len(),
                (if position is Some {
                    1int
                } else {
                    0int
                }),
                (if done {
                    0int
                } else {
                    1int
                }),
    {
        let ghost before = state;
        let mut granted: bool = true;
        match position {
            None => {
                match queue.tasks.pop_front() {
                    None => {
                        done = true;
                    },
                    Some(task) => {
                        assert(queue@.tasks =~= before.queue.tasks.drop_first());
                        if !(task.rva < task.bound_start || task.rva >= task.bound_end
                            || instruction_starts.contains(task.rva)) {
                            position = Some((task, task.rva));
                        }
                    },
                }
            },
            Some((task, rva)) => {
                if rva >= task.bound_end {
                    position = None;
                } else if instruction_count == MAXIMUM_DECODED_INSTRUCTION_COUNT {
                    limit_reached = true;
                    done = true;
                } else if instruction_starts.contains(rva) {
                    position = None;
                } else if rva >= image_size || base_address.checked_add(rva).is_none() {
                    error_count = error_count.saturating_add(1);
                    position = None;
                } else {
                    let limit: usize = min_usize(task.bound_end, image_size);
                    let ip: u64 = (base_address + rva) as u64;
                    let instruction = decode_instruction(
                        vstd::slice::slice_subrange(snapshot.bytes.as_slice(), rva, limit),
                        ip,
                    );
                    let length: usize = instruction.length;
                    if length == 0 || instruction.invalid || !is_snapshot_range_available(
                        snapshot,
                        rva,
                        length,
                    ) {
                        error_count = error_count.saturating_add(1);
                        position = None;
                    } else {
                        let end: usize = rva + length;
                        let instruction_bytes = vstd::slice::slice_subrange(
                            snapshot.bytes.as_slice(),
                            rva,
                            end,
                        );
                        let supported_interrupt: bool = (instruction.flow_control
                            == FLOW_INTERRUPT || instruction.flow_control == FLOW_EXCEPTION)
                            && decoded_catalog_entry(&instruction, instruction_bytes).is_some();
                        let target = near_branch_target_rva(
                            &instruction,
                            base_address,
                            image_size,
                        );
                        assert(instruction_starts.represents(rva as int));
                        assert forall|i: int| rva <= i < end implies decoded_coverage.represents(
                            i,
                        ) by {}
                        instruction_starts.insert(rva);
                        decoded_coverage.insert_range(rva, end);
                        assert(decoded_coverage@ =~= before.coverage.union(
                            span(rva as int, end as int),
                        ));
                        instruction_count = instruction_count.saturating_add(1);
                        match follow_flow(
                            &mut queue,
                            snapshot,
                            runtime_functions,
                            task,
                            end,
                            instruction.flow_control,
                            target,
                            supported_interrupt,
                        ) {
                            None => {
                                granted = false;
                                error_count = error_count.saturating_add(1);
                                limit_reached = true;
                                done = true;
                            },
                            Some(next) => {
                                position = next;
                            },
                        }
                    }
                }
            },
        }
        proof {
            let longer = grants.push(granted);
            assert(longer.drop_last() =~= grants);
            grants = longer;
            if !limit_reached {
                assert(grants =~= all_granted(grants.len()));
            }
            state = mapped_step(base_address, *snapshot, runtime_functions@, before, granted);
        }
    }
    assert(state == mapped_run(
        process.image.base_address,
        *snapshot,
        runtime_functions@,
        initial_traversal(tasks@),
        grants,
    ));
    ProcessInstructionBoundaryScan {
        instruction_starts,
        decoded_coverage,
        instruction_count,
        error_count,
        limit_reached,
    }
}

/// Decodes mapped bytes with the bitmaps and the queue that were set up. Without bitmaps nothing is
/// decoded; without a queue the limit is reported too.
pub fn decode_mapped_with_setup(
    process: &ValidatedProcessPe,
    snapshot: &ValidatedPeSnapshot,
    runtime_functions: &[RuntimeFunctionRange],
    bitmaps: Option<(ProcessDecodeBitmap, ProcessDecodeBitmap)>,
    tasks: Option<DecodeQueue>,
) -> (r: ProcessInstructionBoundaryScan)
    requires
        functions_sorted(runtime_functions@),
        match bitmaps {
            Some((starts, coverage)) => {
                &&& starts.fresh(snapshot.bytes@.len())
                &&& coverage.fresh(snapshot.bytes@.len())
            },
            None => true,
        },
        tasks is Some ==> tasks->0@.wf(),
    ensures
        match (bitmaps, tasks) {
            (None, _) => boundary_scan_failed(r, false),
            (Some(_), None) => boundary_scan_failed(r, true),
            (Some(_), Some(queue)) => mapped_decode_outcome(
                process.image.base_address,
                *snapshot,
                runtime_functions@,
                queue@,
                r,
            ),
        },
        r.instruction_starts.bit_length == snapshot.bytes@.len(),
        r.decoded_coverage.bit_length == snapshot.bytes@.len(),
        r.instruction_starts@.subset_of(r.decoded_coverage@),
{
    let image_size: usize = snapshot.bytes.len();
    match bitmaps {
        None => empty_instruction_boundary_scan(image_size, 1, false),
        Some((starts, coverage)) => match tasks {
            None => empty_instruction_boundary_scan(image_size, 1, true),
            Some(queue) => decode_mapped_instructions(
                process,
                snapshot,
                runtime_functions,
                starts,
                coverage,
                queue,
            ),
        },
    }
}

/// Recursively decodes current mapped bytes to independently establish instruction starts.
pub fn collect_process_instruction_boundaries(
    process: &ValidatedProcessPe,
    snapshot: &ValidatedPeSnapshot,
    runtime_functions: &[RuntimeFunctionRange],
) -> (r: ProcessInstructionBoundaryScan)
    requires
        functions_sorted(runtime_functions@),
    ensures
        boundary_outcome(
            process.image.base_address,
            process.image.entry_point_rva,
            *snapshot,
            runtime_functions@,
            r,
        ),
        runtime_functions@.len() + 1 > MAXIMUM_DECODE_TASK_COUNT ==> boundary_scan_failed(
            r,
            r.limit_reached,
        ),
        r.instruction_starts.bit_length == snapshot.bytes@.len(),
        r.decoded_coverage.bit_length == snapshot.bytes@.len(),
        r.instruction_starts@.subset_of(r.decoded_coverage@),
{
    let bitmaps = create_bitmaps(snapshot.bytes.len());
    let tasks: Option<DecodeQueue> = if bitmaps.is_some() {
        initialize_decode_tasks(snapshot, runtime_functions, process.image.entry_point_rva)
    } else {
        None
    };
    decode_mapped_with_setup(process, snapshot, runtime_functions, bitmaps, tasks)
}

/// Owns bounded recursive-decoding state needed by later raw-byte classification.
pub struct ProcessDecodedOpcodeScan {
    pub log: DecodedHitLog,
    pub decoded_coverage: ProcessDecodeBitmap,
    pub coverage_available: bool,
    pub seed_count: usize,
    pub instruction_count: usize,
    pub current_instruction_count: usize,
    pub byte_count: usize,
    pub error_count: usize,
    pub limit_reached: bool,
}

/// What the decode of the raw executable reads.
pub ghost struct BackingContext {
    pub base_address: usize,
    pub snapshot: ValidatedPeSnapshot,
    pub file: ValidatedPeFile,
    pub functions: Seq<RuntimeFunctionRange>,
    pub relocations: Seq<ProcessRelocationRange>,
    pub current_starts: Set<int>,
    pub differences_enabled: bool,
}

/// What the decode of the raw executable keeps while it runs.
pub ghost struct BackingState {
    pub traversal: TraversalState,
    pub byte_count: usize,
    pub log: HitLogView,
}

/// Whether `[rva, rva + size)` overlaps no relocated interval.
pub open spec fn avoids_relocations(
    relocations: Seq<ProcessRelocationRange>,
    rva: int,
    size: int,
) -> bool {
    forall|i: int|
        0 <= i < relocations.len() ==> !overlap(
            rva,
            size,
            (#[trigger] relocations[i]).rva as int,
            relocations[i].size as int,
        )
}

/// The software trap that stands in the process, and not in the raw executable, at a backing
/// instruction start.
pub open spec fn trap_difference(
    context: BackingContext,
    rva: usize,
    process_bytes: Seq<u8>,
    backing_bytes: Seq<u8>,
) -> Option<CatalogEntry> {
    match trap_at(process_bytes) {
        Some(entry) => {
            let bytecode = catalog_opcode(entry).bytecode;
            if context.differences_enabled && bytecode.len() <= backing_bytes.len()
                && !begins_with(backing_bytes, bytecode) && avoids_relocations(
                context.relocations,
                rva as int,
                bytecode.len() as int,
            ) {
                Some(entry)
            } else {
                None
            }
        },
        None => None,
    }
}

/// The opcode to report for the backing instruction at `rva`. Only an instruction that begins a
/// current instruction too, and is wholly available, is reported.
pub open spec fn reported_opcode(
    context: BackingContext,
    rva: usize,
    entry: Option<CatalogEntry>,
    backing_bytes: Seq<u8>,
) -> Option<(CatalogEntry, ProcessOpcodeEvidence)> {
    let end = rva + backing_bytes.len();
    let process_bytes = context.snapshot.bytes@.subrange(rva as int, end);
    if !context.current_starts.contains(rva as int) || !snapshot_range_available(
        context.snapshot,
        rva as int,
        backing_bytes.len() as int,
    ) {
        None
    } else {
        match trap_difference(context, rva, process_bytes, backing_bytes) {
            Some(trap) => Some((trap, ProcessOpcodeEvidence::MappedTrapDifference)),
            None => if entry is Some && process_bytes == backing_bytes {
                Some((entry->0, ProcessOpcodeEvidence::DecodedStaticInstruction))
            } else {
                None
            },
        }
    }
}

/// The hit log after the backing instruction at `rva`, decoded from `decoder_bytes`.
pub open spec fn log_after(
    context: BackingContext,
    log: HitLogView,
    rva: usize,
    decoder_bytes: Seq<u8>,
    ip: u64,
    entry: Option<CatalogEntry>,
    backing_bytes: Seq<u8>,
    granted: bool,
) -> HitLogView {
    match reported_opcode(context, rva, entry, backing_bytes) {
        None => log,
        Some((reported, evidence)) => recorded(
            log,
            catalog_opcode(reported).name,
            evidence,
            built_hit(
                context.base_address,
                context.snapshot,
                decoded_mnemonic(decoder_bytes, ip),
                rva,
                catalog_opcode(reported),
                evidence,
                context.snapshot.bytes@.subrange(rva as int, rva + backing_bytes.len()),
                backing_bytes,
            ),
            granted,
        ),
    }
}

/// The task at hand is given up with an error.
pub open spec fn backing_failed(state: BackingState) -> BackingState {
    BackingState { traversal: failed(state.traversal), ..state }
}

/// Decodes the backing instruction at `rva` of `task`. The first grant is for scheduling its
/// target, the second for keeping its hit.
pub open spec fn backing_decode_step(
    context: BackingContext,
    state: BackingState,
    task: ProcessDecodeTask,
    rva: usize,
    grants: (bool, bool),
) -> BackingState {
    let len = context.snapshot.bytes@.len();
    match context.file.file_range(rva as int) {
        None => backing_failed(state),
        Some((offset, raw_end)) => {
            let room = task.bound_end - rva;
            let available = if raw_end - offset <= room {
                raw_end - offset
            } else {
                room
            };
            let decoder_bytes = context.file.bytes@.subrange(offset as int, offset + available);
            let ip = (context.base_address + rva) as u64;
            let instruction = decoded_instruction(decoder_bytes, ip);
            let end = rva + instruction.length;
            if available <= 0 || context.base_address + rva > usize::MAX || instruction.length == 0
                || end > task.bound_end || end > len || instruction.invalid {
                backing_failed(state)
            } else {
                let backing_bytes = context.file.bytes@.subrange(
                    offset as int,
                    offset + instruction.length,
                );
                let entry = catalog_entry_of(instruction, backing_bytes);
                BackingState {
                    traversal: advanced(
                        state.traversal,
                        context.snapshot,
                        context.functions,
                        task,
                        rva,
                        end as usize,
                        instruction.flow_control,
                        branch_target(instruction, context.base_address as int, len as int),
                        entry is Some,
                        grants.0,
                    ),
                    byte_count: state.byte_count.saturating_add(instruction.length),
                    log: log_after(
                        context,
                        state.log,
                        rva,
                        decoder_bytes,
                        ip,
                        entry,
                        backing_bytes,
                        grants.1,
                    ),
                }
            }
        },
    }
}

/// One step of the decode of the raw executable.
pub open spec fn backing_step(
    context: BackingContext,
    state: BackingState,
    grants: (bool, bool),
) -> BackingState {
    let traversal = state.traversal;
    if traversal.done {
        state
    } else {
        match traversal.position {
            None => if traversal.queue.tasks.len() == 0 {
                BackingState { traversal: TraversalState { done: true, ..traversal }, ..state }
            } else {
                let task = traversal.queue.tasks[0];
                let rest = TraversalState {
                    queue: QueueView {
                        tasks: traversal.queue.tasks.drop_first(),
                        ..traversal.queue
                    },
                    ..traversal
                };
                if task.rva < task.bound_start || task.rva >= task.bound_end {
                    BackingState { traversal: failed(rest), ..state }
                } else {
                    BackingState {
                        traversal: TraversalState { position: Some((task, task.rva)), ..rest },
                        ..state
                    }
                }
            },
            Some((task, rva)) => if rva >= task.bound_end {
                BackingState { traversal: left(traversal), ..state }
            } else if traversal.instruction_count == MAXIMUM_DECODED_INSTRUCTION_COUNT {
                BackingState {
                    traversal: TraversalState { limit_reached: true, done: true, ..traversal },
                    ..state
                }
            } else if traversal.starts.contains(rva as int) {
                BackingState { traversal: left(traversal), ..state }
            } else {
                backing_decode_step(context, state, task, rva, grants)
            },
        }
    }
}

/// The decode of the raw executable after one step for each of `grants`.
pub open spec fn backing_run(
    context: BackingContext,
    initial: BackingState,
    grants: Seq<(bool, bool)>,
) -> BackingState
    decreases grants.len(),
{
    if grants.len() == 0 {
        initial
    } else {
        backing_step(context, backing_run(context, initial, grants.drop_last()), grants.last())
    }
}

/// Reports whether a range overlaps none of the relocated intervals.
fn avoids_relocation_ranges(
    relocation_ranges: &[ProcessRelocationRange],
    rva: usize,
    size: usize,
) -> (r: bool)
    ensures
        r == avoids_relocations(relocation_ranges@, rva as int, size as int),
{
    let mut index: usize = 0;
    while index < relocation_ranges.len()
        invariant
            index <= relocation_ranges@.len(),
            forall|i: int|
                0 <= i < index ==> !overlap(
                    rva as int,
                    size as int,
                    (#[trigger] relocation_ranges@[i]).rva as int,
                    relocation_ranges@[i].size as int,
                ),
        decreases relocation_ranges.len() - index,
    {
        let ghost seen = relocation_ranges@[index as int];
        if ranges_overlap(
            rva,
            size,
            relocation_ranges[index].rva,
            relocation_ranges[index].size,
        ) {
            assert(overlap(rva as int, size as int, seen.rva as int, seen.size as int));
            return false;
        }
        index += 1;
    }
    true
}

/// Decides which opcode to report for a backing instruction.
fn classify_backing_instruction(
    snapshot: &ValidatedPeSnapshot,
    relocation_ranges: &[ProcessRelocationRange],
    current_starts: &ProcessDecodeBitmap,
    differences_enabled: bool,
    rva: usize,
    entry: Option<CatalogEntry>,
    backing_bytes: &[u8],
    Ghost(context): Ghost<BackingContext>,
) -> (r: Option<(CatalogEntry, ProcessOpcodeEvidence)>)
    requires
        context.snapshot == *snapshot,
        context.relocations == relocation_ranges@,
        context.current_starts == current_starts@,
        context.differences_enabled == differences_enabled,
    ensures
        r == reported_opcode(context, rva, entry, backing_bytes@),
{
    let length: usize = backing_bytes.len();
    if !is_dual_decode_hit_boundary(current_starts, rva) || !is_snapshot_range_available(
        snapshot,
        rva,
        length,
    ) {
        return None;
    }
    let process_bytes = vstd::slice::slice_subrange(snapshot.bytes.as_slice(), rva, rva + length);
    if differences_enabled {
        match mapped_trap_entry_at(process_bytes) {
            Some(trap) => {
                let bytecode = opcode_of(trap).bytecode;
                if bytecode.len() <= length && !bytes_at(backing_bytes, 0, bytecode)
                    && avoids_relocation_ranges(relocation_ranges, rva, bytecode.len()) {
                    return Some((trap, ProcessOpcodeEvidence::MappedTrapDifference));
                }
            },
            None => {},
        }
    }
    match entry {
        Some(known) => if bytes_equal(process_bytes, backing_bytes) {
            Some((known, ProcessOpcodeEvidence::DecodedStaticInstruction))
        } else {
            None
        },
        None => None,
    }
}

/// Records what a backing instruction gives. Returns whether room was found for its hit.
fn log_backing_instruction(
    process: &ValidatedProcessPe,
    snapshot: &ValidatedPeSnapshot,
    log: &mut DecodedHitLog,
    rva: usize,
    decoder_bytes: &[u8],
    ip: u64,
    reported: Option<(CatalogEntry, ProcessOpcodeEvidence)>,
    entry: Option<CatalogEntry>,
    backing_bytes: &[u8],
    Ghost(context): Ghost<BackingContext>,
) -> (r: bool)
    requires
        context.base_address == process.image.base_address,
        context.snapshot == *snapshot,
        reported == reported_opcode(context, rva, entry, backing_bytes@),
    ensures
        final(log)@ == log_after(
            context,
            old(log)@,
            rva,
            decoder_bytes@,
            ip,
            entry,
            backing_bytes@,
            r,
        ),
        !r ==> final(log)@.hits_truncated,
{
    match reported {
        None => true,
        Some((found, evidence)) => {
            let opcode = opcode_of(found);
            let process_bytes = vstd::slice::slice_subrange(
                snapshot.bytes.as_slice(),
                rva,
                rva + backing_bytes.len(),
            );
            let hit = build_decoded_opcode_hit(
                process,
                snapshot,
                decoder_bytes,
                ip,
                rva,
                opcode,
                evidence,
                process_bytes,
                backing_bytes,
            );
            record_decoded_opcode_hit(log, opcode.name, evidence, hit)
        },
    }
}

/// Creates an empty decoded result when a trusted raw baseline cannot be used.
pub fn empty_decoded_opcode_scan(
    image_size: usize,
    error_count: usize,
    limit_reached: bool,
    raw_summaries: Vec<ProcessOpcodeRawSummary>,
) -> (r: ProcessDecodedOpcodeScan)
    ensures
        r.log.hits@.len() == 0,
        r.log.hit_count == 0,
        !r.log.hits_truncated,
        r.log.raw_summaries == raw_summaries,
        r.decoded_coverage@ == Set::<int>::empty(),
        !r.coverage_available,
        r.seed_count == 0,
        r.instruction_count == 0,
        r.current_instruction_count == 0,
        r.byte_count == 0,
        r.error_count == error_count,
        r.limit_reached == limit_reached,
{
    ProcessDecodedOpcodeScan {
        log: DecodedHitLog { hits: Vec::new(), hit_count: 0, hits_truncated: false, raw_summaries },
        decoded_coverage: ProcessDecodeBitmap::empty(image_size),
        coverage_available: false,
        seed_count: 0,
        instruction_count: 0,
        current_instruction_count: 0,
        byte_count: 0,
        error_count,
        limit_reached,
    }
}

/// A decode of the raw executable that begins with `queue`.
pub open spec fn initial_backing(
    queue: QueueView,
    summaries: Seq<super::hits::SummaryView>,
) -> BackingState {
    BackingState {
        traversal: initial_traversal(queue),
        byte_count: 0,
        log: HitLogView {
            hits: Seq::empty(),
            hit_count: 0,
            hits_truncated: false,
            summaries,
        },
    }
}

/// The scan holds what both decodes found.
pub open spec fn decoded_scan_is(
    scan: ProcessDecodedOpcodeScan,
    queue: QueueView,
    state: BackingState,
    current: ProcessInstructionBoundaryScan,
) -> bool {
    &&& scan.log@ == state.log
    &&& scan.decoded_coverage@ == state.traversal.coverage.union(current.decoded_coverage@)
    &&& scan.seed_count == queue.scheduled.len()
    &&& scan.coverage_available == (scan.seed_count != 0 && scan.instruction_count != 0)
    &&& scan.instruction_count == state.traversal.instruction_count
    &&& scan.current_instruction_count == current.instruction_count
    &&& scan.byte_count == state.byte_count
    &&& scan.error_count == state.traversal.error_count.saturating_add(current.error_count)
    &&& scan.limit_reached == (state.traversal.limit_reached || current.limit_reached)
}

/// The scan of a setup that failed: for want of bitmaps, or, with the limit reported, for want of
/// a queue.
pub open spec fn decoded_scan_failed(
    scan: ProcessDecodedOpcodeScan,
    summaries: Seq<super::hits::SummaryView>,
    limit_reached: bool,
) -> bool {
    &&& scan.log@ == (HitLogView {
        hits: Seq::empty(),
        hit_count: 0,
        hits_truncated: false,
        summaries,
    })
    &&& scan.decoded_coverage@ == Set::<int>::empty()
    &&& !scan.coverage_available
    &&& scan.seed_count == 0
    &&& scan.instruction_count == 0
    &&& scan.current_instruction_count == 0
    &&& scan.byte_count == 0
    &&& scan.error_count == 1
    &&& scan.limit_reached == limit_reached
}

/// Memory granted for target and hit at each of `steps` steps.
pub open spec fn all_granted_twice(steps: nat) -> Seq<(bool, bool)> {
    Seq::new(steps, |i: int| (true, true))
}

/// What decoding the raw executable from `queue` ends in: a completed run beside a decode of the
/// mapped bytes. It is the run in which all memory was granted unless a limit or a truncated hit
/// list is reported.
pub open spec fn backing_decode_outcome(
    context: BackingContext,
    queue: QueueView,
    summaries: Seq<super::hits::SummaryView>,
    current: ProcessInstructionBoundaryScan,
    scan: ProcessDecodedOpcodeScan,
) -> bool {
    &&& exists|grants: Seq<(bool, bool)>|
        {
            let state = #[trigger] backing_run(context, initial_backing(queue, summaries), grants);
            state.traversal.done && decoded_scan_is(scan, queue, state, current)
        }
    &&& !scan.limit_reached && !scan.log.hits_truncated ==> exists|steps: nat|
        {
            let state = backing_run(
                context,
                initial_backing(queue, summaries),
                #[trigger] all_granted_twice(steps),
            );
            state.traversal.done && decoded_scan_is(scan, queue, state, current)
        }
}

/// What decoding the raw executable may end in: a failed setup, or a completed run from the
/// seeded queue beside a decode of the mapped bytes.
pub open spec fn decoded_outcome(
    context: BackingContext,
    entry_point_rva: usize,
    summaries: Seq<super::hits::SummaryView>,
    current: ProcessInstructionBoundaryScan,
    scan: ProcessDecodedOpcodeScan,
) -> bool {
    let queue = seeded_queue(
        context.snapshot.pe.sections@,
        context.snapshot.bytes@.len() as int,
        context.functions,
        entry_point_rva,
    );
    ||| decoded_scan_failed(scan, summaries, scan.limit_reached) && setup_failure_possible(
        context.snapshot.bytes@.len(),
        scan.limit_reached,
    )
    ||| {
        &&& setup_possible(context.snapshot.bytes@.len(), context.functions.len())
        &&& queue is Some
        &&& backing_decode_outcome(context, queue->0, summaries, current, scan)
    }
}

/// The context of a decode of `file` beside the mapped decode `current`.
pub open spec fn backing_context(
    process: ValidatedProcessPe,
    snapshot: ValidatedPeSnapshot,
    file: ValidatedPeFile,
    functions: Seq<RuntimeFunctionRange>,
    relocations: Seq<ProcessRelocationRange>,
    current: ProcessInstructionBoundaryScan,
    differences_enabled: bool,
) -> BackingContext {
    BackingContext {
        base_address: process.image.base_address,
        snapshot,
        file,
        functions,
        relocations,
        current_starts: current.instruction_starts@,
        differences_enabled,
    }
}

/// Decodes the raw executable from `tasks` beside a decode of the mapped bytes, marking starts and
/// covered bytes in empty bitmaps, and compares matching process bytes.
#[verifier::rlimit(60)]
pub fn decode_backing_instructions(
    process: &ValidatedProcessPe,
    snapshot: &ValidatedPeSnapshot,
    backing_file: &ValidatedPeFile,
    runtime_functions: &[RuntimeFunctionRange],
    relocation_ranges: &[ProcessRelocationRange],
    current_boundaries: &ProcessInstructionBoundaryScan,
    raw_summaries: Vec<ProcessOpcodeRawSummary>,
    mapped_trap_difference_detection_enabled: bool,
    starts: ProcessDecodeBitmap,
    coverage: ProcessDecodeBitmap,
    tasks: DecodeQueue,
) -> (r: ProcessDecodedOpcodeScan)
    requires
        functions_sorted(runtime_functions@),
        backing_file.wf(),
        current_boundaries.decoded_coverage.bit_length == snapshot.bytes@.len(),
        starts.fresh(snapshot.bytes@.len()),
        coverage.fresh(snapshot.bytes@.len()),
        tasks@.wf(),
    ensures
        backing_decode_outcome(
            backing_context(
                *process,
                *snapshot,
                *backing_file,
                runtime_functions@,
                relocation_ranges@,
                *current_boundaries,
                mapped_trap_difference_detection_enabled,
            ),
            tasks@,
            super::hits::summary_views(raw_summaries@),
            *current_boundaries,
            r,
        ),
{
    let image_size: usize = snapshot.bytes.len();
    let mut decoded_starts = starts;
    let mut decoded_coverage = coverage;
    let mut queue = tasks;
    assert(super::hits::hit_views(Seq::empty()) =~= Seq::<super::hits::HitView>::empty());
    let seed_count: usize = queue.scheduled_starts.len();
    let base_address: usize = process.image.base_address;
    let ghost seeds = tasks@;
    let ghost summaries = super::hits::summary_views(raw_summaries@);
    let ghost context = backing_context(
        *process,
        *snapshot,
        *backing_file,
        runtime_functions@,
        relocation_ranges@,
        *current_boundaries,
        mapped_trap_difference_detection_enabled,
    );
    let mut log = DecodedHitLog {
        hits: Vec::new(),
        hit_count: 0,
        hits_truncated: false,
        raw_summaries,
    };
    let ghost initial = initial_backing(seeds, summaries);
    let ghost mut grants: Seq<(bool, bool)> = Seq::empty();
    assert(grants =~= all_granted_twice(0));
    let ghost mut state = initial;
    assert(log@.hits =~= Seq::<super::hits::HitView>::empty());
    let mut position: DecodePosition = None;
    let mut instruction_count: usize = 0;
    let mut byte_count: usize = 0;
    let mut error_count: usize = 0;
    let mut limit_reached: bool = false;
    let mut done: bool = false;
    while !done
        invariant
            functions_sorted(runtime_functions@),
            backing_file.wf(),
            base_address == process.image.base_address,
            image_size == snapshot.bytes@.len(),
            context == backing_context(
                *process,
                *snapshot,
                *backing_file,
                runtime_functions@,
                relocation_ranges@,
                *current_boundaries,
                mapped_trap_difference_detection_enabled,
            ),
            initial == initial_backing(seeds, summaries),
            decoded_starts.bit_length == image_size,
            decoded_starts.complete(),
            decoded_coverage.bit_length == image_size,
            decoded_coverage.complete(),
            current_boundaries.decoded_coverage.bit_length == image_size,
            state == backing_run(context, initial, grants),
            !limit_reached && !log.hits_truncated ==> grants == all_granted_twice(grants.len()),
            traversal_wf(state.traversal, image_size as int),
            state.byte_count == byte_count,
            state.log == log@,
            state.traversal == (TraversalState {
                queue: queue@,
                position,
                starts: decoded_starts@,
                coverage: decoded_coverage@,
                instruction_count,
                error_count,
                limit_reached,
                done,
            }),
        decreases
                MAXIMUM_DECODED_INSTRUCTION_COUNT - instruction_count,
                MAXIMUM_DECODE_TASK_COUNT - queue@.scheduled.len(),
                queue@.tasks.len(),
                (if position is Some {
                    1int
                } else {
                    0int
                }),
                (if done {
                    0int
                } else {
                    1int
                }),
    {
        let ghost before = state;
        let mut scheduled: bool = true;
        let mut kept: bool = true;
        match position {
            None => {
                match queue.tasks.pop_front() {
                    None => {
                        done = true;
                    },
                    Some(task) => {
                        assert(queue@.tasks =~= before.traversal.queue.tasks.drop_first());
                        if task.rva < task.bound_start || task.rva >= task.bound_end {
                            error_count = error_count.saturating_add(1);
                        } else {
                            position = Some((task, task.rva));
                        }
                    },
                }
            },
            Some((task, rva)) => {
                if rva >= task.bound_end {
                    position = None;
                } else if instruction_count == MAXIMUM_DECODED_INSTRUCTION_COUNT {
                    limit_reached = true;
                    done = true;
                } else if decoded_starts.contains(rva) {
                    position = None;
                } else {
                    let (file_offset, raw_end) = match rva_to_file_range(backing_file, rva) {
                        Some(value) => value,
                        None => (0, 0),
                    };
                    if file_offset >= raw_end || base_address.checked_add(rva).is_none() {
                        error_count = error_count.saturating_add(1);
                        position = None;
                    } else {
                        let available: usize = min_usize(
                            raw_end - file_offset,
                            task.bound_end - rva,
                        );
                        let decoder_bytes = vstd::slice::slice_subrange(
                            backing_file.bytes.as_slice(),
                            file_offset,
                            file_offset + available,
                        );
                        let ip: u64 = (base_address + rva) as u64;
                        let instruction = decode_instruction(decoder_bytes, ip);
                        let length: usize = instruction.length;
                        if length == 0 || rva >= image_size || length > image_size - rva
                            || instruction.invalid {
                            error_count = error_count.saturating_add(1);
                            position = None;
                        } else {
                            let end: usize = rva + length;
                            let backing_bytes = vstd::slice::slice_subrange(
                                decoder_bytes,
                                0,
                                length,
                            );
                            assert(backing_bytes@ =~= backing_file.bytes@.subrange(
                                file_offset as int,
                                file_offset + length,
                            ));
                            assert(decoded_starts.represents(rva as int));
                            assert forall|i: int|
                                rva <= i < end implies decoded_coverage.represents(i) by {}
                            decoded_starts.insert(rva);
                            decoded_coverage.insert_range(rva, end);
                            assert(decoded_coverage@ =~= before.traversal.coverage.union(
                                span(rva as int, end as int),
                            ));
                            instruction_count = instruction_count.saturating_add(1);
                            byte_count = byte_count.saturating_add(length);
                            let entry = decoded_catalog_entry(&instruction, backing_bytes);
                            let reported = classify_backing_instruction(
                                snapshot,
                                relocation_ranges,
                                &current_boundaries.instruction_starts,
                                mapped_trap_difference_detection_enabled,
                                rva,
                                entry,
                                backing_bytes,
                                Ghost(context),
                            );
                            kept = log_backing_instruction(
                                process,
                                snapshot,
                                &mut log,
                                rva,
                                decoder_bytes,
                                ip,
                                reported,
                                entry,
                                backing_bytes,
                                Ghost(context),
                            );
                            let target = near_branch_target_rva(
                                &instruction,
                                base_address,
                                image_size,
                            );
                            match follow_flow(
                                &mut queue,
                                snapshot,
                                runtime_functions,
                                task,
                                end,
                                instruction.flow_control,
                                target,
                                entry.is_some(),
                            ) {
                                None => {
                                    scheduled = false;
                                    error_count = error_count.saturating_add(1);
                                    limit_reached = true;
                                    done = true;
                                },
                                Some(next) => {
                                    position = next;
                                },
                            }
                        }
                    }
                }
            },
        }
        proof {
            let longer = grants.push((scheduled, kept));
            assert(longer.drop_last() =~= grants);
            grants = longer;
            if !limit_reached && !log.hits_truncated {
                assert(grants =~= all_granted_twice(grants.len()));
            }
            state = backing_step(context, before, (scheduled, kept));
        }
    }
    decoded_coverage.union_with(&current_boundaries.decoded_coverage);
    proof {
        assert forall|i: int|
            #[trigger] current_boundaries.decoded_coverage@.contains(i) implies 0 <= i
            < image_size by {}
        assert(decoded_coverage@ =~= state.traversal.coverage.union(
            current_boundaries.decoded_coverage@,
        ));
    }
    let scan = ProcessDecodedOpcodeScan {
        log,
        decoded_coverage,
        coverage_available: seed_count != 0 && instruction_count != 0,
        seed_count,
        instruction_count,
        current_instruction_count: current_boundaries.instruction_count,
        byte_count,
        error_count: error_count.saturating_add(current_boundaries.error_count),
        limit_reached: limit_reached || current_boundaries.limit_reached,
    };
    assert(state == backing_run(context, initial_backing(seeds, summaries), grants));
    assert(decoded_scan_is(scan, seeds, state, *current_boundaries));
    scan
}

/// Decodes the raw executable with the bitmaps and the queue that were set up. Without bitmaps
/// nothing is decoded; without a queue the limit is reported too.
pub fn decode_backing_with_setup(
    process: &ValidatedProcessPe,
    snapshot: &ValidatedPeSnapshot,
    backing_file: &ValidatedPeFile,
    runtime_functions: &[RuntimeFunctionRange],
    relocation_ranges: &[ProcessRelocationRange],
    current_boundaries: &ProcessInstructionBoundaryScan,
    raw_summaries: Vec<ProcessOpcodeRawSummary>,
    mapped_trap_difference_detection_enabled: bool,
    bitmaps: Option<(ProcessDecodeBitmap, ProcessDecodeBitmap)>,
    tasks: Option<DecodeQueue>,
) -> (r: ProcessDecodedOpcodeScan)
    requires
        functions_sorted(runtime_functions@),
        backing_file.wf(),
        current_boundaries.decoded_coverage.bit_length == snapshot.bytes@.len(),
        match bitmaps {
            Some((starts, coverage)) => {
                &&& starts.fresh(snapshot.bytes@.len())
                &&& coverage.fresh(snapshot.bytes@.len())
            },
            None => true,
        },
        tasks is Some ==> tasks->0@.wf(),
    ensures
        ({
            let summaries = super::hits::summary_views(raw_summaries@);
            match (bitmaps, tasks) {
                (None, _) => decoded_scan_failed(r, summaries, false),
                (Some(_), None) => decoded_scan_failed(r, summaries, true),
                (Some(_), Some(queue)) => backing_decode_outcome(
                    backing_context(
                        *process,
                        *snapshot,
                        *backing_file,
                        runtime_functions@,
                        relocation_ranges@,
                        *current_boundaries,
                        mapped_trap_difference_detection_enabled,
                    ),
                    queue@,
                    summaries,
                    *current_boundaries,
                    r,
                ),
            }
        }),
{
    let image_size: usize = snapshot.bytes.len();
    match bitmaps {
        None => {
            let scan = empty_decoded_opcode_scan(image_size, 1, false, raw_summaries);
            assert(scan.log@.hits =~= Seq::<super::hits::HitView>::empty());
            scan
        },
        Some((starts, coverage)) => match tasks {
            None => {
                let scan = empty_decoded_opcode_scan(image_size, 1, true, raw_summaries);
                assert(scan.log@.hits =~= Seq::<super::hits::HitView>::empty());
                scan
            },
            Some(queue) => decode_backing_instructions(
                process,
                snapshot,
                backing_file,
                runtime_functions,
                relocation_ranges,
                current_boundaries,
                raw_summaries,
                mapped_trap_difference_detection_enabled,
                starts,
                coverage,
                queue,
            ),
        },
    }
}

/// Recursively decodes trusted raw-file control flow and compares matching process bytes.
pub fn collect_decoded_opcode_hits(
    process: &ValidatedProcessPe,
    snapshot: &ValidatedPeSnapshot,
    backing_file: &ValidatedPeFile,
    runtime_functions: &[RuntimeFunctionRange],
    relocation_ranges: &[ProcessRelocationRange],
    raw_summaries: Vec<ProcessOpcodeRawSummary>,
    mapped_trap_difference_detection_enabled: bool,
) -> (r: ProcessDecodedOpcodeScan)
    requires
        functions_sorted(runtime_functions@),
        backing_file.wf(),
    ensures
        exists|current: ProcessInstructionBoundaryScan|
            #[trigger] boundary_outcome(
                process.image.base_address,
                process.image.entry_point_rva,
                *snapshot,
                runtime_functions@,
                current,
            ) && decoded_outcome(
                backing_context(
                    *process,
                    *snapshot,
                    *backing_file,
                    runtime_functions@,
                    relocation_ranges@,
                    current,
                    mapped_trap_difference_detection_enabled,
                ),
                process.image.entry_point_rva,
                super::hits::summary_views(raw_summaries@),
                current,
                r,
            ),
        runtime_functions@.len() + 1 > MAXIMUM_DECODE_TASK_COUNT ==> decoded_scan_failed(
            r,
            super::hits::summary_views(raw_summaries@),
            r.limit_reached,
        ),
{
    let current_boundaries = collect_process_instruction_boundaries(
        process,
        snapshot,
        runtime_functions,
    );
    let bitmaps = create_bitmaps(snapshot.bytes.len());
    let tasks: Option<DecodeQueue> = if bitmaps.is_some() {
        initialize_decode_tasks(snapshot, runtime_functions, process.image.entry_point_rva)
    } else {
        None
    };
    decode_backing_with_setup(
        process,
        snapshot,
        backing_file,
        runtime_functions,
        relocation_ranges,
        &current_boundaries,
        raw_summaries,
        mapped_trap_difference_detection_enabled,
        bitmaps,
        tasks,
    )
}

/// Whether the mapped bytes at `rva` hold an available instruction.
pub open spec fn available_start(snapshot: ValidatedPeSnapshot, rva: int) -> bool {
    exists|length: int| 0 < length && #[trigger] snapshot_range_available(snapshot, rva, length)
}

/// Every instruction start that a decode of mapped bytes finds begins an instruction of available
/// bytes inside the image.
pub proof fn law_mapped_starts_are_available(
    base_address: usize,
    snapshot: ValidatedPeSnapshot,
    functions: Seq<RuntimeFunctionRange>,
    queue: QueueView,
    grants: Seq<bool>,
)
    ensures
        forall|rva: int|
            #[trigger] mapped_run(
                base_address,
                snapshot,
                functions,
                initial_traversal(queue),
                grants,
            ).starts.contains(rva) ==> available_start(snapshot, rva),
    decreases grants.len(),
{
    if grants.len() > 0 {
        law_mapped_starts_are_available(
            base_address,
            snapshot,
            functions,
            queue,
            grants.drop_last(),
        );
    }
}

/// Whether `hit` begins at an instruction of both decodes whose mapped bytes are all available.
pub open spec fn shared_boundary(
    context: BackingContext,
    starts: Set<int>,
    hit: super::hits::HitView,
) -> bool {
    &&& context.current_starts.contains(hit.instruction_rva as int)
    &&& starts.contains(hit.instruction_rva as int)
    &&& available_start(context.snapshot, hit.instruction_rva as int)
}

/// A decoded opcode is reported only where a backing instruction and a current instruction
/// begin together, and only over available bytes.
pub proof fn law_hits_begin_at_shared_boundaries(
    context: BackingContext,
    queue: QueueView,
    summaries: Seq<super::hits::SummaryView>,
    grants: Seq<(bool, bool)>,
)
    ensures
        ({
            let state = backing_run(context, initial_backing(queue, summaries), grants);
            forall|i: int|
                0 <= i < state.log.hits.len() ==> shared_boundary(
                    context,
                    state.traversal.starts,
                    #[trigger] state.log.hits[i],
                )
        }),
    decreases grants.len(),
{
    if grants.len() > 0 {
        law_hits_begin_at_shared_boundaries(context, queue, summaries, grants.drop_last());
    }
}

/// A trap is reported as a difference only when the raw executable does not hold it there and no
/// relocation touches it.
pub proof fn law_differences_are_real(
    context: BackingContext,
    rva: usize,
    entry: Option<CatalogEntry>,
    backing_bytes: Seq<u8>,
    trap: CatalogEntry,
)
    requires
        reported_opcode(context, rva, entry, backing_bytes) == Some(
            (trap, ProcessOpcodeEvidence::MappedTrapDifference),
        ),
    ensures
        ({
            let bytecode = catalog_opcode(trap).bytecode;
            &&& context.differences_enabled
            &&& begins_with(
                context.snapshot.bytes@.subrange(rva as int, rva + backing_bytes.len()),
                bytecode,
            )
            &&& !begins_with(backing_bytes, bytecode)
            &&& avoids_relocations(context.relocations, rva as int, bytecode.len() as int)
        }),
{
}

/// A decode of mapped bytes that is done stays as it is.
proof fn lemma_mapped_run_settles(
    base_address: usize,
    snapshot: ValidatedPeSnapshot,
    functions: Seq<RuntimeFunctionRange>,
    initial: TraversalState,
    steps: nat,
    more: nat,
)
    requires
        steps <= more,
        mapped_run(base_address, snapshot, functions, initial, all_granted(steps)).done,
    ensures
        mapped_run(base_address, snapshot, functions, initial, all_granted(more)) == mapped_run(
            base_address,
            snapshot,
            functions,
            initial,
            all_granted(steps),
        ),
    decreases more - steps,
{
    if steps < more {
        lemma_mapped_run_settles(
            base_address,
            snapshot,
            functions,
            initial,
            steps,
            (more - 1) as nat,
        );
        assert(all_granted(more).drop_last() =~= all_granted((more - 1) as nat));
    }
}

/// Two decodes of the same mapped bytes from the same queue find the same instructions unless a
/// limit is reported.
pub proof fn law_mapped_decodes_agree(
    base_address: usize,
    snapshot: ValidatedPeSnapshot,
    functions: Seq<RuntimeFunctionRange>,
    queue: QueueView,
    left: ProcessInstructionBoundaryScan,
    right: ProcessInstructionBoundaryScan,
)
    requires
        mapped_decode_outcome(base_address, snapshot, functions, queue, left),
        mapped_decode_outcome(base_address, snapshot, functions, queue, right),
        !left.limit_reached,
        !right.limit_reached,
    ensures
        left.instruction_starts@ == right.instruction_starts@,
        left.decoded_coverage@ == right.decoded_coverage@,
        left.instruction_count == right.instruction_count,
        left.error_count == right.error_count,
{
    let initial = initial_traversal(queue);
    let a = choose|steps: nat|
        {
            let state = mapped_run(
                base_address,
                snapshot,
                functions,
                initial,
                #[trigger] all_granted(steps),
            );
            state.done && boundary_scan_is(left, state)
        };
    let b = choose|steps: nat|
        {
            let state = mapped_run(
                base_address,
                snapshot,
                functions,
                initial,
                #[trigger] all_granted(steps),
            );
            state.done && boundary_scan_is(right, state)
        };
    if a <= b {
        lemma_mapped_run_settles(base_address, snapshot, functions, initial, a, b);
    } else {
        lemma_mapped_run_settles(base_address, snapshot, functions, initial, b, a);
    }
}

/// A decode of the raw executable that is done stays as it is.
proof fn lemma_backing_run_settles(
    context: BackingContext,
    initial: BackingState,
    steps: nat,
    more: nat,
)
    requires
        steps <= more,
        backing_run(context, initial, all_granted_twice(steps)).traversal.done,
    ensures
        backing_run(context, initial, all_granted_twice(more)) == backing_run(
            context,
            initial,
            all_granted_twice(steps),
        ),
    decreases more - steps,
{
    if steps < more {
        lemma_backing_run_settles(context, initial, steps, (more - 1) as nat);
        assert(all_granted_twice(more).drop_last() =~= all_granted_twice((more - 1) as nat));
    }
}

/// Two decodes of the same raw executable from the same queue, beside the same decode of the
/// mapped bytes, report the same opcodes in the same order unless a limit or a truncated list is
/// reported.
pub proof fn law_backing_decodes_agree(
    context: BackingContext,
    queue: QueueView,
    summaries: Seq<super::hits::SummaryView>,
    current: ProcessInstructionBoundaryScan,
    left: ProcessDecodedOpcodeScan,
    right: ProcessDecodedOpcodeScan,
)
    requires
        backing_decode_outcome(context, queue, summaries, current, left),
        backing_decode_outcome(context, queue, summaries, current, right),
        !left.limit_reached && !left.log.hits_truncated,
        !right.limit_reached && !right.log.hits_truncated,
    ensures
        left.log@ == right.log@,
        left.decoded_coverage@ == right.decoded_coverage@,
        left.instruction_count == right.instruction_count,
        left.byte_count == right.byte_count,
        left.error_count == right.error_count,
{
    let initial = initial_backing(queue, summaries);
    let a = choose|steps: nat|
        {
            let state = backing_run(context, initial, #[trigger] all_granted_twice(steps));
            state.traversal.done && decoded_scan_is(left, queue, state, current)
        };
    let b = choose|steps: nat|
        {
            let state = backing_run(context, initial, #[trigger] all_granted_twice(steps));
            state.traversal.done && decoded_scan_is(right, queue, state, current)
        };
    if a <= b {
        lemma_backing_run_settles(context, initial, a, b);
    } else {
        lemma_backing_run_settles(context, initial, b, a);
    }
}

} // verus!
