//! Recursive decoding, stated over the instructions that stand in the bytes.

use vstd::prelude::*;

use crate::code_section::RuntimeFunctionRange;
use crate::opcode::decode::{
    branch_target, catalog_entry_of, decoded_instruction, DecodedInstruction,
};
use crate::opcode::queue::{
    decode_bounds, falls_through, schedules_target, ProcessDecodeTask, QueueView,
};
use crate::opcode::traverse::{
    advanced, all_granted, all_granted_twice, backing_run, backing_step, boundary_scan_is, failed,
    initial_backing, initial_traversal, left, mapped_decode_outcome, mapped_run, mapped_step,
    BackingContext, ProcessInstructionBoundaryScan, TraversalState,
};
use crate::pe::snapshot::snapshot_range_available;
use crate::pe::types::ValidatedPeSnapshot;

verus! {

/// What counts of one instruction: its length, where it branches, and whether the next one follows.
pub ghost struct Reading {
    pub length: int,
    pub flow: u32,
    pub target: Option<usize>,
    pub known_trap: bool,
}

/// What a decode reads at an RVA of a task that ends at a bound.
pub type Reads = spec_fn(usize, usize) -> Option<Reading>;

/// Whether decoding goes on behind an instruction: behind a plain one, a conditional branch, a call,
/// an indirect call and a transactional one, and behind a trap that the catalog knows.
pub open spec fn goes_on(reading: Reading) -> bool {
    ||| reading.flow == 0
    ||| reading.flow == 3
    ||| reading.flow == 5
    ||| reading.flow == 6
    ||| reading.flow == 8
    ||| (reading.flow == 7 || reading.flow == 9) && reading.known_trap
}

/// Whether decoding follows the target of an instruction: of a branch, a conditional branch, a call
/// and a transactional one.
pub open spec fn branches(reading: Reading) -> bool {
    reading.flow == 1 || reading.flow == 3 || reading.flow == 5 || reading.flow == 8
}

/// The branch target of an instruction as an RVA, for near branches into the image.
pub open spec fn target_rva(
    instruction: DecodedInstruction,
    base: usize,
    image_size: int,
) -> Option<usize> {
    let target = instruction.near_branch_target as int;
    if 1 <= instruction.op0_kind <= 3 && target <= usize::MAX && base <= target && target - base
        < image_size {
        Some((target - base) as usize)
    } else {
        None
    }
}

/// The mapped instruction at `rva`, when all of it is valid, inside the bound, and available.
pub open spec fn mapped_reading(
    base: usize,
    snapshot: ValidatedPeSnapshot,
    rva: usize,
    bound: usize,
) -> Option<Reading> {
    let len = snapshot.bytes@.len() as int;
    let limit = if bound <= len {
        bound as int
    } else {
        len
    };
    let instruction = decoded_instruction(
        snapshot.bytes@.subrange(rva as int, limit),
        (base + rva) as u64,
    );
    if rva < len && base + rva <= usize::MAX && instruction.length > 0 && rva + instruction.length
        <= limit && !instruction.invalid && snapshot_range_available(
        snapshot,
        rva as int,
        instruction.length as int,
    ) {
        Some(
            Reading {
                length: instruction.length as int,
                flow: instruction.flow_control,
                target: target_rva(instruction, base, len),
                known_trap: catalog_entry_of(
                    instruction,
                    snapshot.bytes@.subrange(rva as int, rva + instruction.length),
                ) is Some,
            },
        )
    } else {
        None
    }
}

/// The stored instruction at `rva`, when all of it is valid, inside the bound and inside the image.
pub open spec fn backing_reading(context: BackingContext, rva: usize, bound: usize) -> Option<
    Reading,
> {
    let len = context.snapshot.bytes@.len() as int;
    match context.file.file_range(rva as int) {
        None => None,
        Some((offset, end)) => {
            let room = if end - offset <= bound - rva {
                end - offset
            } else {
                bound - rva
            };
            let instruction = decoded_instruction(
                context.file.bytes@.subrange(offset as int, offset + room),
                (context.base_address + rva) as u64,
            );
            if room > 0 && context.base_address + rva <= usize::MAX && instruction.length > 0 && rva
                + instruction.length <= bound && rva + instruction.length <= len
                && !instruction.invalid {
                Some(
                    Reading {
                        length: instruction.length as int,
                        flow: instruction.flow_control,
                        target: target_rva(instruction, context.base_address, len),
                        known_trap: catalog_entry_of(
                            instruction,
                            context.file.bytes@.subrange(
                                offset as int,
                                offset + instruction.length,
                            ),
                        ) is Some,
                    },
                )
            } else {
                None
            }
        },
    }
}

/// The task for an RVA with trusted bounds.
pub open spec fn task_for(rva: usize, bounds: (usize, usize)) -> ProcessDecodeTask {
    ProcessDecodeTask { rva, bound_start: bounds.0, bound_end: bounds.1 }
}

/// Whether nothing is left to do for an RVA of a task that ends at `bound`: it lies behind the
/// bound, is a start, or holds no instruction.
pub open spec fn settled(starts: Set<int>, reads: Reads, rva: int, bound: usize) -> bool {
    ||| rva >= bound
    ||| starts.contains(rva)
    ||| reads(rva as usize, bound) is None
}

/// Whether an RVA is settled or is where decoding goes on.
spec fn pending(state: TraversalState, reads: Reads, rva: int, bound: usize) -> bool {
    ||| settled(state.starts, reads, rva, bound)
    ||| match state.position {
        Some((task, at)) => at == rva && task.bound_end == bound,
        None => false,
    }
}

/// Whether a task waits, is at hand, is out of its bounds, or is settled.
spec fn task_met(state: TraversalState, reads: Reads, task: ProcessDecodeTask) -> bool {
    ||| state.queue.tasks.contains(task)
    ||| task.rva < task.bound_start
    ||| pending(state, reads, task.rva as int, task.bound_end)
}

/// What decodes are about: the bounds of an RVA.
pub type Bounds = spec_fn(usize) -> Option<(usize, usize)>;

/// Whether start `r`, read up to `bound`, is done: what follows it is pending, and its target is
/// scheduled.
spec fn start_done(
    state: TraversalState,
    reads: Reads,
    bounds: Bounds,
    r: int,
    bound: usize,
) -> bool {
    &&& 0 <= r <= usize::MAX
    &&& reads(r as usize, bound) is Some
    &&& {
        let reading = reads(r as usize, bound)->0;
        &&& forall|i: int| r <= i < r + reading.length ==> #[trigger] state.coverage.contains(i)
        &&& goes_on(reading) ==> pending(state, reads, r + reading.length, bound)
        &&& branches(reading) && reading.target is Some && bounds(reading.target->0) is Some
            ==> state.queue.scheduled.contains(reading.target->0)
    }
}

/// Whether some start that was read covers position `i`.
spec fn covered_by(state: TraversalState, reads: Reads, i: int, r: int, bound: usize) -> bool {
    &&& state.starts.contains(r)
    &&& 0 <= r <= usize::MAX
    &&& reads(r as usize, bound) is Some
    &&& r <= i < r + reads(r as usize, bound)->0.length
}

/// Whether start `r` is done for some bound.
spec fn start_is_done(state: TraversalState, reads: Reads, bounds: Bounds, r: int) -> bool {
    exists|bound: usize| #[trigger] start_done(state, reads, bounds, r, bound)
}

/// Whether position `i` is covered by a start.
spec fn is_covered(state: TraversalState, reads: Reads, i: int) -> bool {
    exists|r: int, bound: usize| #[trigger] covered_by(state, reads, i, r, bound)
}

/// Whether a scheduled target is met.
spec fn target_met(state: TraversalState, reads: Reads, bounds: Bounds, t: usize) -> bool {
    bounds(t) is Some && task_met(state, reads, task_for(t, bounds(t)->0))
}

/// What holds of every state of a decode from `first` that has not met a limit.
spec fn decode_invariant(
    state: TraversalState,
    reads: Reads,
    bounds: Bounds,
    first: QueueView,
) -> bool {
    &&& forall|r: int| #[trigger]
        state.starts.contains(r) ==> start_is_done(state, reads, bounds, r)
    &&& forall|i: int| #[trigger] state.coverage.contains(i) ==> is_covered(state, reads, i)
    &&& forall|task: ProcessDecodeTask| #[trigger]
        first.tasks.contains(task) ==> task_met(state, reads, task)
    &&& forall|t: usize| #[trigger]
        state.queue.scheduled.contains(t) ==> first.scheduled.contains(t) || target_met(
            state,
            reads,
            bounds,
            t,
        )
    &&& first.scheduled.subset_of(state.queue.scheduled)
    &&& state.starts.finite()
    &&& state.instruction_count == state.starts.len()
    &&& state.done ==> state.queue.tasks.len() == 0 && state.position is None
}

/// What becomes of pending RVAs when the position changes.
spec fn carries_over(before: TraversalState, after: TraversalState, reads: Reads) -> bool {
    &&& before.starts.subset_of(after.starts)
    &&& before.coverage.subset_of(after.coverage)
    &&& before.queue.scheduled.subset_of(after.queue.scheduled)
    &&& match before.position {
        Some((task, at)) => pending(after, reads, at as int, task.bound_end),
        None => true,
    }
}

/// Pending RVAs stay pending.
proof fn lemma_pending_carries(
    before: TraversalState,
    after: TraversalState,
    reads: Reads,
    rva: int,
    bound: usize,
)
    requires
        carries_over(before, after, reads),
        pending(before, reads, rva, bound),
    ensures
        pending(after, reads, rva, bound),
{
}

/// Starts that are done stay done.
proof fn lemma_done_carries(
    before: TraversalState,
    after: TraversalState,
    reads: Reads,
    bounds: Bounds,
    r: int,
)
    requires
        carries_over(before, after, reads),
        start_is_done(before, reads, bounds, r),
    ensures
        start_is_done(after, reads, bounds, r),
{
    let bound = choose|bound: usize| #[trigger] start_done(before, reads, bounds, r, bound);
    let reading = reads(r as usize, bound)->0;
    if goes_on(reading) {
        lemma_pending_carries(before, after, reads, r + reading.length, bound);
    }
    assert forall|i: int| r <= i < r + reading.length implies #[trigger] after.coverage.contains(
        i,
    ) by {
        assert(before.coverage.contains(i));
    }
    assert(start_done(after, reads, bounds, r, bound));
}

/// Covered positions stay covered.
proof fn lemma_covered_carries(
    before: TraversalState,
    after: TraversalState,
    reads: Reads,
    i: int,
)
    requires
        carries_over(before, after, reads),
        is_covered(before, reads, i),
    ensures
        is_covered(after, reads, i),
{
    let (r, bound) = choose|r: int, bound: usize| #[trigger]
        covered_by(before, reads, i, r, bound);
    assert(covered_by(after, reads, i, r, bound));
}

/// A step that only moves on keeps the invariant: what it takes from the queue it has at hand or
/// out of bounds.
proof fn lemma_moves_on(
    before: TraversalState,
    after: TraversalState,
    reads: Reads,
    bounds: Bounds,
    first: QueueView,
)
    requires
        decode_invariant(before, reads, bounds, first),
        carries_over(before, after, reads),
        after.starts == before.starts,
        after.coverage == before.coverage,
        after.instruction_count == before.instruction_count,
        after.queue.scheduled == before.queue.scheduled,
        after.done ==> after.queue.tasks.len() == 0 && after.position is None,
        forall|task: ProcessDecodeTask| #[trigger]
            before.queue.tasks.contains(task) ==> task_met(after, reads, task),
    ensures
        decode_invariant(after, reads, bounds, first),
{
    assert forall|r: int| #[trigger] after.starts.contains(r) implies start_is_done(
        after,
        reads,
        bounds,
        r,
    ) by {
        assert(before.starts.contains(r));
        lemma_done_carries(before, after, reads, bounds, r);
    }
    assert forall|i: int| #[trigger] after.coverage.contains(i) implies is_covered(
        after,
        reads,
        i,
    ) by {
        assert(before.coverage.contains(i));
        lemma_covered_carries(before, after, reads, i);
    }
    assert forall|task: ProcessDecodeTask| task_met(before, reads, task) implies #[trigger] task_met(
        after,
        reads,
        task,
    ) by {
        if !before.queue.tasks.contains(task) && task.rva >= task.bound_start {
            lemma_pending_carries(before, after, reads, task.rva as int, task.bound_end);
        }
    }
    assert forall|t: usize| #[trigger] after.queue.scheduled.contains(t) implies first.scheduled
        .contains(t) || target_met(after, reads, bounds, t) by {
        assert(before.queue.scheduled.contains(t));
        if target_met(before, reads, bounds, t) {
            assert(task_met(after, reads, task_for(t, bounds(t)->0)));
        }
    }
    assert forall|task: ProcessDecodeTask| #[trigger] first.tasks.contains(task) implies task_met(
        after,
        reads,
        task,
    ) by {
        assert(task_met(before, reads, task));
    }
}

/// The bounds of the RVAs of an image.
pub open spec fn image_bounds(
    snapshot: ValidatedPeSnapshot,
    functions: Seq<RuntimeFunctionRange>,
) -> Bounds {
    |t: usize|
        decode_bounds(
            snapshot.pe.sections@,
            snapshot.bytes@.len() as int,
            functions,
            t as int,
        )
}

/// Decoding one more instruction keeps the invariant.
proof fn lemma_advances(
    before: TraversalState,
    after: TraversalState,
    reads: Reads,
    snapshot: ValidatedPeSnapshot,
    functions: Seq<RuntimeFunctionRange>,
    first: QueueView,
    task: ProcessDecodeTask,
    rva: usize,
    supported: bool,
)
    requires
        decode_invariant(before, reads, image_bounds(snapshot, functions), first),
        !before.done,
        before.position == Some((task, rva)),
        rva < task.bound_end,
        !before.starts.contains(rva as int),
        before.instruction_count < 10_000_000,
        reads(rva, task.bound_end) is Some,
        ({
            let reading = reads(rva, task.bound_end)->0;
            &&& 0 < reading.length
            &&& rva + reading.length <= usize::MAX
            &&& falls_through(reading.flow, supported) == goes_on(reading)
            &&& after == advanced(
                before,
                snapshot,
                functions,
                task,
                rva,
                (rva + reading.length) as usize,
                reading.flow,
                reading.target,
                supported,
                true,
            )
        }),
        !after.limit_reached,
    ensures
        decode_invariant(after, reads, image_bounds(snapshot, functions), first),
{
    let bounds = image_bounds(snapshot, functions);
    let reading = reads(rva, task.bound_end)->0;
    let end = rva + reading.length;
    assert(schedules_target(reading.flow) == branches(reading));
    assert(after.starts == before.starts.insert(rva as int));
    assert(after.starts.contains(rva as int));
    assert(carries_over(before, after, reads));
    assert forall|i: int| rva <= i < end implies #[trigger] after.coverage.contains(i) by {}
    assert forall|t: ProcessDecodeTask| #[trigger]
        before.queue.tasks.contains(t) implies after.queue.tasks.contains(t) by {
        let n = before.queue.tasks.index_of(t);
        assert(after.queue.tasks[n] == t);
    }
    assert(start_done(after, reads, bounds, rva as int, task.bound_end)) by {
        if branches(reading) && reading.target is Some && bounds(reading.target->0) is Some {
            assert(after.queue.scheduled.contains(reading.target->0));
        }
    }
    assert forall|r: int| #[trigger] after.starts.contains(r) implies start_is_done(
        after,
        reads,
        bounds,
        r,
    ) by {
        if r != rva {
            assert(before.starts.contains(r));
            lemma_done_carries(before, after, reads, bounds, r);
        }
    }
    assert forall|i: int| #[trigger] after.coverage.contains(i) implies is_covered(
        after,
        reads,
        i,
    ) by {
        if before.coverage.contains(i) {
            lemma_covered_carries(before, after, reads, i);
        } else {
            assert(covered_by(after, reads, i, rva as int, task.bound_end));
        }
    }
    assert forall|t: ProcessDecodeTask| task_met(before, reads, t) implies #[trigger] task_met(
        after,
        reads,
        t,
    ) by {
        if !before.queue.tasks.contains(t) && t.rva >= t.bound_start {
            lemma_pending_carries(before, after, reads, t.rva as int, t.bound_end);
        }
    }
    assert forall|t: usize| #[trigger] after.queue.scheduled.contains(t) implies first.scheduled
        .contains(t) || target_met(after, reads, bounds, t) by {
        if before.queue.scheduled.contains(t) {
            if target_met(before, reads, bounds, t) {
                assert(task_met(after, reads, task_for(t, bounds(t)->0)));
            }
        } else {
            assert(t == reading.target->0);
            let more = task_for(t, bounds(t)->0);
            assert(after.queue.tasks.last() == more);
            assert(after.queue.tasks.contains(more));
        }
    }
    assert forall|t: ProcessDecodeTask| #[trigger] first.tasks.contains(t) implies task_met(
        after,
        reads,
        t,
    ) by {
        assert(task_met(before, reads, t));
    }
}

/// Taking a task from the queue keeps the invariant.
proof fn lemma_takes_task(
    before: TraversalState,
    after: TraversalState,
    reads: Reads,
    bounds: Bounds,
    first: QueueView,
)
    requires
        decode_invariant(before, reads, bounds, first),
        !before.done,
        before.position is None,
        before.queue.tasks.len() > 0,
        after.starts == before.starts,
        after.coverage == before.coverage,
        after.instruction_count == before.instruction_count,
        after.queue.scheduled == before.queue.scheduled,
        after.queue.tasks == before.queue.tasks.drop_first(),
        !after.done,
        ({
            let task = before.queue.tasks[0];
            ||| after.position == Some((task, task.rva))
            ||| task.rva < task.bound_start
            ||| task.rva >= task.bound_end
            ||| before.starts.contains(task.rva as int)
        }),
    ensures
        decode_invariant(after, reads, bounds, first),
{
    assert forall|task: ProcessDecodeTask| #[trigger]
        before.queue.tasks.contains(task) implies task_met(after, reads, task) by {
        let n = before.queue.tasks.index_of(task);
        if n > 0 {
            assert(after.queue.tasks[n - 1] == task);
        }
    }
    lemma_moves_on(before, after, reads, bounds, first);
}

/// Leaving the position keeps the invariant where nothing is left to do there.
proof fn lemma_leaves(
    before: TraversalState,
    after: TraversalState,
    reads: Reads,
    bounds: Bounds,
    first: QueueView,
)
    requires
        decode_invariant(before, reads, bounds, first),
        !before.done,
        before.position is Some,
        ({
            let (task, at) = before.position->0;
            settled(before.starts, reads, at as int, task.bound_end)
        }),
        after.starts == before.starts,
        after.coverage == before.coverage,
        after.instruction_count == before.instruction_count,
        after.queue == before.queue,
        after.position is None,
        !after.done,
    ensures
        decode_invariant(after, reads, bounds, first),
{
    lemma_moves_on(before, after, reads, bounds, first);
}

/// One step over mapped bytes keeps the invariant.
proof fn lemma_mapped_step(
    base: usize,
    snapshot: ValidatedPeSnapshot,
    functions: Seq<RuntimeFunctionRange>,
    first: QueueView,
    state: TraversalState,
)
    requires
        snapshot.bytes@.len() <= usize::MAX,
        state.instruction_count <= 10_000_000,
        decode_invariant(
            state,
            |rva: usize, bound: usize| mapped_reading(base, snapshot, rva, bound),
            image_bounds(snapshot, functions),
            first,
        ),
        !mapped_step(base, snapshot, functions, state, true).limit_reached,
    ensures
        decode_invariant(
            mapped_step(base, snapshot, functions, state, true),
            |rva: usize, bound: usize| mapped_reading(base, snapshot, rva, bound),
            image_bounds(snapshot, functions),
            first,
        ),
        mapped_step(base, snapshot, functions, state, true).instruction_count <= 10_000_000,
{
    let reads = |rva: usize, bound: usize| mapped_reading(base, snapshot, rva, bound);
    let bounds = image_bounds(snapshot, functions);
    let after = mapped_step(base, snapshot, functions, state, true);
    if !state.done {
        match state.position {
            None => {
                if state.queue.tasks.len() == 0 {
                    lemma_moves_on(state, after, reads, bounds, first);
                } else {
                    lemma_takes_task(state, after, reads, bounds, first);
                }
            },
            Some((task, rva)) => {
                if rva >= task.bound_end || state.starts.contains(rva as int) {
                    lemma_leaves(state, after, reads, bounds, first);
                } else if reads(rva, task.bound_end) is None {
                    assert(after == failed(state));
                    lemma_leaves(state, after, reads, bounds, first);
                } else {
                    let len = snapshot.bytes@.len() as int;
                    let limit = if task.bound_end <= len {
                        task.bound_end as int
                    } else {
                        len
                    };
                    let instruction = decoded_instruction(
                        snapshot.bytes@.subrange(rva as int, limit),
                        (base + rva) as u64,
                    );
                    let supported = crate::opcode::traverse::known_interrupt(
                        instruction,
                        snapshot.bytes@.subrange(rva as int, rva + instruction.length),
                    );
                    assert(branch_target(instruction, base as int, len) == target_rva(
                        instruction,
                        base,
                        len,
                    ));
                    lemma_advances(
                        state,
                        after,
                        reads,
                        snapshot,
                        functions,
                        first,
                        task,
                        rva,
                        supported,
                    );
                }
            },
        }
    }
}

/// A run that has not met a limit had met none before.
proof fn lemma_no_limit_before(
    base: usize,
    snapshot: ValidatedPeSnapshot,
    functions: Seq<RuntimeFunctionRange>,
    state: TraversalState,
)
    requires
        state.limit_reached,
    ensures
        mapped_step(base, snapshot, functions, state, true).limit_reached,
{
}

/// The invariant holds of every run that has not met a limit.
proof fn lemma_mapped_run(
    base: usize,
    snapshot: ValidatedPeSnapshot,
    functions: Seq<RuntimeFunctionRange>,
    queue: QueueView,
    steps: nat,
)
    requires
        snapshot.bytes@.len() <= usize::MAX,
        !mapped_run(
            base,
            snapshot,
            functions,
            initial_traversal(queue),
            all_granted(steps),
        ).limit_reached,
    ensures
        ({
            let state = mapped_run(
                base,
                snapshot,
                functions,
                initial_traversal(queue),
                all_granted(steps),
            );
            &&& state.instruction_count <= 10_000_000
            &&& decode_invariant(
                state,
                |rva: usize, bound: usize| mapped_reading(base, snapshot, rva, bound),
                image_bounds(snapshot, functions),
                queue,
            )
        }),
    decreases steps,
{
    let initial = initial_traversal(queue);
    if steps > 0 {
        let fewer = (steps - 1) as nat;
        assert(all_granted(steps).drop_last() =~= all_granted(fewer));
        assert(all_granted(steps).last());
        let state = mapped_run(base, snapshot, functions, initial, all_granted(fewer));
        if state.limit_reached {
            lemma_no_limit_before(base, snapshot, functions, state);
        }
        lemma_mapped_run(base, snapshot, functions, queue, fewer);
        lemma_mapped_step(base, snapshot, functions, queue, state);
    }
}

/// Whether nothing is left to do for a mapped RVA: it lies behind the bound, is a start, or holds no
/// instruction.
pub open spec fn mapped_settled(
    base: usize,
    snapshot: ValidatedPeSnapshot,
    starts: Set<int>,
    rva: int,
    bound: usize,
) -> bool {
    rva >= bound || starts.contains(rva) || mapped_reading(base, snapshot, rva as usize, bound)
        is None
}

/// Whether a queue holds a task for every RVA that it has scheduled.
pub open spec fn seeds_have_tasks(queue: QueueView, bounds: Bounds) -> bool {
    forall|t: usize| #[trigger]
        queue.scheduled.contains(t) ==> bounds(t) is Some && queue.tasks.contains(
            task_for(t, bounds(t)->0),
        )
}

/// The state that a decode of mapped bytes without a limit ends in.
proof fn lemma_mapped_end(
    base: usize,
    snapshot: ValidatedPeSnapshot,
    functions: Seq<RuntimeFunctionRange>,
    queue: QueueView,
    scan: ProcessInstructionBoundaryScan,
) -> (state: TraversalState)
    requires
        snapshot.bytes@.len() <= usize::MAX,
        mapped_decode_outcome(base, snapshot, functions, queue, scan),
        !scan.limit_reached,
    ensures
        state.done,
        boundary_scan_is(scan, state),
        decode_invariant(
            state,
            |rva: usize, bound: usize| mapped_reading(base, snapshot, rva, bound),
            image_bounds(snapshot, functions),
            queue,
        ),
{
    let initial = initial_traversal(queue);
    let steps = choose|steps: nat|
        {
            let state = mapped_run(
                base,
                snapshot,
                functions,
                initial,
                #[trigger] all_granted(steps),
            );
            state.done && boundary_scan_is(scan, state)
        };
    lemma_mapped_run(base, snapshot, functions, queue, steps);
    mapped_run(base, snapshot, functions, initial, all_granted(steps))
}

/// Every seed of a decode of mapped bytes is a start, unless it holds no instruction or lies outside
/// its bounds.
pub proof fn law_mapped_seeds_are_decoded(
    base: usize,
    snapshot: ValidatedPeSnapshot,
    functions: Seq<RuntimeFunctionRange>,
    queue: QueueView,
    scan: ProcessInstructionBoundaryScan,
    task: ProcessDecodeTask,
)
    requires
        snapshot.bytes@.len() <= usize::MAX,
        mapped_decode_outcome(base, snapshot, functions, queue, scan),
        !scan.limit_reached,
        queue.tasks.contains(task),
        task.bound_start <= task.rva < task.bound_end,
        mapped_reading(base, snapshot, task.rva, task.bound_end) is Some,
    ensures
        scan.instruction_starts@.contains(task.rva as int),
{
    let reads = |rva: usize, bound: usize| mapped_reading(base, snapshot, rva, bound);
    let state = lemma_mapped_end(base, snapshot, functions, queue, scan);
    assert(task_met(state, reads, task));
}

/// A decode of mapped bytes is closed: each start holds an instruction, all of whose bytes are
/// covered; where decoding goes on behind it, the next RVA is settled, and where it branches to a
/// target with trusted bounds, the target is settled.
pub proof fn law_mapped_decode_is_closed(
    base: usize,
    snapshot: ValidatedPeSnapshot,
    functions: Seq<RuntimeFunctionRange>,
    queue: QueueView,
    scan: ProcessInstructionBoundaryScan,
    r: int,
) -> (bound: usize)
    requires
        snapshot.bytes@.len() <= usize::MAX,
        mapped_decode_outcome(base, snapshot, functions, queue, scan),
        !scan.limit_reached,
        seeds_have_tasks(queue, image_bounds(snapshot, functions)),
        scan.instruction_starts@.contains(r),
    ensures
        0 <= r < snapshot.bytes@.len(),
        mapped_reading(base, snapshot, r as usize, bound) is Some,
        ({
            let starts = scan.instruction_starts@;
            let reading = mapped_reading(base, snapshot, r as usize, bound)->0;
            &&& forall|i: int| r <= i < r + reading.length ==> #[trigger]
                scan.decoded_coverage@.contains(i)
            &&& goes_on(reading) ==> mapped_settled(
                base,
                snapshot,
                starts,
                r + reading.length,
                bound,
            )
            &&& branches(reading) && reading.target is Some ==> match decode_bounds(
                snapshot.pe.sections@,
                snapshot.bytes@.len() as int,
                functions,
                reading.target->0 as int,
            ) {
                Some(bounds) => reading.target->0 < bounds.0 || mapped_settled(
                    base,
                    snapshot,
                    starts,
                    reading.target->0 as int,
                    bounds.1,
                ),
                None => true,
            }
        }),
{
    let reads = |rva: usize, bound: usize| mapped_reading(base, snapshot, rva, bound);
    let bounds = image_bounds(snapshot, functions);
    let state = lemma_mapped_end(base, snapshot, functions, queue, scan);
    assert(state.starts.contains(r));
    assert(start_is_done(state, reads, bounds, r));
    let bound = choose|bound: usize| #[trigger] start_done(state, reads, bounds, r, bound);
    let reading = reads(r as usize, bound)->0;
    assert(reads(r as usize, bound) == mapped_reading(base, snapshot, r as usize, bound));
    if branches(reading) && reading.target is Some && bounds(reading.target->0) is Some {
        let t = reading.target->0;
        let task = task_for(t, bounds(t)->0);
        assert(state.queue.scheduled.contains(t));
        if queue.scheduled.contains(t) {
            assert(queue.tasks.contains(task));
            assert(task_met(state, reads, task));
        } else {
            assert(target_met(state, reads, bounds, t));
        }
        assert(task_met(state, reads, task));
    }
    bound
}

/// Nothing else is covered or counted: each covered position belongs to the instruction of a start,
/// and there are as many instructions as starts.
pub proof fn law_mapped_coverage_is_decoded(
    base: usize,
    snapshot: ValidatedPeSnapshot,
    functions: Seq<RuntimeFunctionRange>,
    queue: QueueView,
    scan: ProcessInstructionBoundaryScan,
    i: int,
) -> (place: (int, usize))
    requires
        snapshot.bytes@.len() <= usize::MAX,
        mapped_decode_outcome(base, snapshot, functions, queue, scan),
        !scan.limit_reached,
    ensures
        scan.instruction_starts@.finite(),
        scan.instruction_count == scan.instruction_starts@.len(),
        scan.decoded_coverage@.contains(i) ==> {
            let (r, bound) = place;
            &&& scan.instruction_starts@.contains(r)
            &&& mapped_reading(base, snapshot, r as usize, bound) is Some
            &&& r <= i < r + mapped_reading(base, snapshot, r as usize, bound)->0.length
        },
{
    let reads = |rva: usize, bound: usize| mapped_reading(base, snapshot, rva, bound);
    let state = lemma_mapped_end(base, snapshot, functions, queue, scan);
    if scan.decoded_coverage@.contains(i) {
        assert(is_covered(state, reads, i));
    }
    choose|r: int, bound: usize| #[trigger] covered_by(state, reads, i, r, bound)
}

/// One step over the raw executable keeps the invariant.
proof fn lemma_backing_step(
    context: BackingContext,
    first: QueueView,
    state: crate::opcode::traverse::BackingState,
)
    requires
        context.snapshot.bytes@.len() <= usize::MAX,
        state.traversal.instruction_count <= 10_000_000,
        decode_invariant(
            state.traversal,
            |rva: usize, bound: usize| backing_reading(context, rva, bound),
            image_bounds(context.snapshot, context.functions),
            first,
        ),
        !backing_step(context, state, (true, true)).traversal.limit_reached,
    ensures
        decode_invariant(
            backing_step(context, state, (true, true)).traversal,
            |rva: usize, bound: usize| backing_reading(context, rva, bound),
            image_bounds(context.snapshot, context.functions),
            first,
        ),
        backing_step(context, state, (true, true)).traversal.instruction_count <= 10_000_000,
{
    let reads = |rva: usize, bound: usize| backing_reading(context, rva, bound);
    let bounds = image_bounds(context.snapshot, context.functions);
    let before = state.traversal;
    let after = backing_step(context, state, (true, true)).traversal;
    if !before.done {
        match before.position {
            None => {
                if before.queue.tasks.len() == 0 {
                    lemma_moves_on(before, after, reads, bounds, first);
                } else {
                    lemma_takes_task(before, after, reads, bounds, first);
                }
            },
            Some((task, rva)) => {
                if rva >= task.bound_end || before.starts.contains(rva as int) {
                    lemma_leaves(before, after, reads, bounds, first);
                } else if reads(rva, task.bound_end) is None {
                    assert(after == failed(before));
                    lemma_leaves(before, after, reads, bounds, first);
                } else {
                    let len = context.snapshot.bytes@.len() as int;
                    let (offset, end) = context.file.file_range(rva as int)->0;
                    let room = if end - offset <= task.bound_end - rva {
                        end - offset
                    } else {
                        task.bound_end - rva
                    };
                    let instruction = decoded_instruction(
                        context.file.bytes@.subrange(offset as int, offset + room),
                        (context.base_address + rva) as u64,
                    );
                    let entry = catalog_entry_of(
                        instruction,
                        context.file.bytes@.subrange(
                            offset as int,
                            offset + instruction.length,
                        ),
                    );
                    assert(branch_target(instruction, context.base_address as int, len)
                        == target_rva(instruction, context.base_address, len));
                    lemma_advances(
                        before,
                        after,
                        reads,
                        context.snapshot,
                        context.functions,
                        first,
                        task,
                        rva,
                        entry is Some,
                    );
                }
            },
        }
    }
}

/// The invariant holds of every run over the raw executable that has not met a limit.
proof fn lemma_backing_run(
    context: BackingContext,
    queue: QueueView,
    summaries: Seq<crate::opcode::hits::SummaryView>,
    steps: nat,
)
    requires
        context.snapshot.bytes@.len() <= usize::MAX,
        !backing_run(
            context,
            initial_backing(queue, summaries),
            all_granted_twice(steps),
        ).traversal.limit_reached,
    ensures
        ({
            let state = backing_run(
                context,
                initial_backing(queue, summaries),
                all_granted_twice(steps),
            );
            &&& state.traversal.instruction_count <= 10_000_000
            &&& decode_invariant(
                state.traversal,
                |rva: usize, bound: usize| backing_reading(context, rva, bound),
                image_bounds(context.snapshot, context.functions),
                queue,
            )
        }),
    decreases steps,
{
    let initial = initial_backing(queue, summaries);
    if steps > 0 {
        let fewer = (steps - 1) as nat;
        assert(all_granted_twice(steps).drop_last() =~= all_granted_twice(fewer));
        assert(all_granted_twice(steps).last() == (true, true));
        let state = backing_run(context, initial, all_granted_twice(fewer));
        lemma_backing_run(context, queue, summaries, fewer);
        lemma_backing_step(context, queue, state);
    }
}

/// Whether nothing is left to do for a stored RVA: it lies behind the bound, is a start, or holds no
/// instruction.
pub open spec fn backing_settled(
    context: BackingContext,
    starts: Set<int>,
    rva: int,
    bound: usize,
) -> bool {
    rva >= bound || starts.contains(rva) || backing_reading(context, rva as usize, bound) is None
}

/// Every seed of a finished decode of the raw executable is a start, unless it holds no instruction
/// or lies outside its bounds.
pub proof fn law_backing_seeds_are_decoded(
    context: BackingContext,
    queue: QueueView,
    summaries: Seq<crate::opcode::hits::SummaryView>,
    steps: nat,
    task: ProcessDecodeTask,
)
    requires
        context.snapshot.bytes@.len() <= usize::MAX,
        ({
            let end = backing_run(
                context,
                initial_backing(queue, summaries),
                all_granted_twice(steps),
            ).traversal;
            end.done && !end.limit_reached
        }),
        queue.tasks.contains(task),
        task.bound_start <= task.rva < task.bound_end,
        backing_reading(context, task.rva, task.bound_end) is Some,
    ensures
        backing_run(
            context,
            initial_backing(queue, summaries),
            all_granted_twice(steps),
        ).traversal.starts.contains(task.rva as int),
{
    let reads = |rva: usize, bound: usize| backing_reading(context, rva, bound);
    lemma_backing_run(context, queue, summaries, steps);
    let state = backing_run(
        context,
        initial_backing(queue, summaries),
        all_granted_twice(steps),
    ).traversal;
    assert(task_met(state, reads, task));
}

/// A finished decode of the raw executable is closed: each start holds an instruction, all of whose
/// bytes are covered; where decoding goes on behind it, the next RVA is settled, and where it
/// branches to a target with trusted bounds, the target is settled.
pub proof fn law_backing_decode_is_closed(
    context: BackingContext,
    queue: QueueView,
    summaries: Seq<crate::opcode::hits::SummaryView>,
    steps: nat,
    r: int,
) -> (bound: usize)
    requires
        context.snapshot.bytes@.len() <= usize::MAX,
        seeds_have_tasks(queue, image_bounds(context.snapshot, context.functions)),
        ({
            let end = backing_run(
                context,
                initial_backing(queue, summaries),
                all_granted_twice(steps),
            ).traversal;
            end.done && !end.limit_reached && end.starts.contains(r)
        }),
    ensures
        0 <= r <= usize::MAX,
        backing_reading(context, r as usize, bound) is Some,
        ({
            let end = backing_run(
                context,
                initial_backing(queue, summaries),
                all_granted_twice(steps),
            ).traversal;
            let reading = backing_reading(context, r as usize, bound)->0;
            &&& end.instruction_count == end.starts.len()
            &&& forall|i: int| r <= i < r + reading.length ==> #[trigger] end.coverage.contains(i)
            &&& goes_on(reading) ==> backing_settled(
                context,
                end.starts,
                r + reading.length,
                bound,
            )
            &&& branches(reading) && reading.target is Some ==> match decode_bounds(
                context.snapshot.pe.sections@,
                context.snapshot.bytes@.len() as int,
                context.functions,
                reading.target->0 as int,
            ) {
                Some(bounds) => reading.target->0 < bounds.0 || backing_settled(
                    context,
                    end.starts,
                    reading.target->0 as int,
                    bounds.1,
                ),
                None => true,
            }
        }),
{
    let reads = |rva: usize, bound: usize| backing_reading(context, rva, bound);
    let bounds = image_bounds(context.snapshot, context.functions);
    lemma_backing_run(context, queue, summaries, steps);
    let state = backing_run(
        context,
        initial_backing(queue, summaries),
        all_granted_twice(steps),
    ).traversal;
    assert(start_is_done(state, reads, bounds, r));
    let bound = choose|bound: usize| #[trigger] start_done(state, reads, bounds, r, bound);
    let reading = reads(r as usize, bound)->0;
    assert(reads(r as usize, bound) == backing_reading(context, r as usize, bound));
    if branches(reading) && reading.target is Some && bounds(reading.target->0) is Some {
        let t = reading.target->0;
        let task = task_for(t, bounds(t)->0);
        assert(state.queue.scheduled.contains(t));
        if queue.scheduled.contains(t) {
            assert(queue.tasks.contains(task));
            assert(task_met(state, reads, task));
        } else {
            assert(target_met(state, reads, bounds, t));
        }
        assert(task_met(state, reads, task));
    }
    bound
}

/// One step at an RVA that is not yet a start: an instruction there is counted and becomes a start,
/// and where there is none an error is counted and the task is left.
pub proof fn law_mapped_steps_are_counted(
    base: usize,
    snapshot: ValidatedPeSnapshot,
    functions: Seq<RuntimeFunctionRange>,
    state: TraversalState,
    granted: bool,
    task: ProcessDecodeTask,
    rva: usize,
)
    requires
        snapshot.bytes@.len() <= usize::MAX,
        !state.done,
        !state.limit_reached,
        state.position == Some((task, rva)),
        rva < task.bound_end,
        !state.starts.contains(rva as int),
        state.error_count < usize::MAX,
    ensures
        ({
            let after = mapped_step(base, snapshot, functions, state, granted);
            let reading = mapped_reading(base, snapshot, rva, task.bound_end);
            let spent = state.instruction_count == 10_000_000;
            &&& spent ==> after.done && after.limit_reached && after.starts == state.starts
            &&& !spent && state.instruction_count < 10_000_000 && reading is Some
                ==> after.instruction_count == state.instruction_count + 1
                && after.starts == state.starts.insert(rva as int) && after.error_count
                == state.error_count + (if after.limit_reached {
                1int
            } else {
                0int
            })
            &&& !spent && reading is None ==> after.error_count == state.error_count + 1
                && after.position is None && after.starts == state.starts
                && after.instruction_count == state.instruction_count && !after.limit_reached
        }),
{
}

/// One step over the raw executable at an RVA that is not yet a start: an instruction there is
/// counted with its bytes and becomes a start, and where there is none an error is counted and the
/// task is left.
pub proof fn law_backing_steps_are_counted(
    context: BackingContext,
    state: crate::opcode::traverse::BackingState,
    grants: (bool, bool),
    task: ProcessDecodeTask,
    rva: usize,
)
    requires
        context.snapshot.bytes@.len() <= usize::MAX,
        !state.traversal.done,
        !state.traversal.limit_reached,
        state.traversal.position == Some((task, rva)),
        rva < task.bound_end,
        !state.traversal.starts.contains(rva as int),
        state.traversal.error_count < usize::MAX,
    ensures
        ({
            let after = backing_step(context, state, grants);
            let reading = backing_reading(context, rva, task.bound_end);
            let before = state.traversal;
            let spent = before.instruction_count == 10_000_000;
            &&& spent ==> after.traversal.done && after.traversal.limit_reached
                && after.traversal.starts == before.starts && after.byte_count == state.byte_count
            &&& !spent && before.instruction_count < 10_000_000 && reading is Some
                ==> after.traversal.instruction_count == before.instruction_count + 1
                && after.traversal.starts == before.starts.insert(rva as int) && (state.byte_count
                + reading->0.length <= usize::MAX ==> after.byte_count == state.byte_count
                + reading->0.length)
            &&& !spent && reading is None ==> after.traversal.error_count == before.error_count + 1
                && after.traversal.position is None && after.traversal.starts == before.starts
                && after.byte_count == state.byte_count && after.log == state.log
        }),
{
}

/// A target is refused exactly when it is new, has trusted bounds, and a million targets were
/// scheduled or no room was granted; else it is scheduled once, with one task, where it has bounds.
pub proof fn law_scheduled_targets(
    queue: QueueView,
    bounds: Option<(usize, usize)>,
    rva: usize,
    granted: bool,
)
    ensures
        ({
            let after = crate::opcode::queue::queue_after(queue, bounds, rva, granted);
            let fresh = !queue.scheduled.contains(rva) && bounds is Some;
            &&& after is None <==> fresh && (queue.scheduled.len() == 1_000_000 || !granted)
            &&& after is Some && fresh ==> after->0.scheduled == queue.scheduled.insert(rva)
                && after->0.tasks == queue.tasks.push(task_for(rva, bounds->0))
            &&& after is Some && !fresh ==> after->0 == queue
        }),
{
}

} // verus!
