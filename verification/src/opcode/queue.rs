//! The work list of a control-flow decode.

use std::collections::{HashSet, VecDeque};

use vstd::prelude::*;

use super::decode::{
    FLOW_CALL, FLOW_CONDITIONAL_BRANCH, FLOW_EXCEPTION, FLOW_INDIRECT_CALL, FLOW_INTERRUPT,
    FLOW_NEXT, FLOW_UNCONDITIONAL_BRANCH, FLOW_XBEGIN_XABORT_XEND,
};
use crate::arith::min_usize;
use crate::code_section::RuntimeFunctionRange;
use crate::pe::layout::executable;
use crate::pe::locate::{get_mapped_section_size, mapped_end};
use crate::pe::types::{SectionHeader, ValidatedPeSnapshot};
use crate::windows::IMAGE_SCN_MEM_EXECUTE;

verus! {

broadcast use vstd::std_specs::hash::group_hash_axioms;

/// Maximum unique recursive decode tasks scheduled from metadata and direct branches.
pub const MAXIMUM_DECODE_TASK_COUNT: usize = 1_000_000;

/// Holds one control-flow decode start and the trusted interval containing it.
#[derive(Clone, Copy, Debug, Eq, PartialEq, Structural)]
pub struct ProcessDecodeTask {
    pub rva: usize,
    pub bound_start: usize,
    pub bound_end: usize,
}

/// Pending decode tasks and every start that was ever scheduled.
pub struct DecodeQueue {
    pub tasks: VecDeque<ProcessDecodeTask>,
    pub scheduled_starts: HashSet<usize>,
}

/// The mathematical value of a decode queue.
pub ghost struct QueueView {
    pub tasks: Seq<ProcessDecodeTask>,
    pub scheduled: Set<usize>,
}

impl View for DecodeQueue {
    type V = QueueView;

    open spec fn view(&self) -> QueueView {
        QueueView { tasks: self.tasks@, scheduled: self.scheduled_starts@ }
    }
}

impl QueueView {
    /// No more starts were scheduled than the limit allows.
    pub open spec fn wf(self) -> bool {
        self.scheduled.finite() && self.scheduled.len() <= MAXIMUM_DECODE_TASK_COUNT
    }
}

/// Calls `VecDeque::try_reserve`, which leaves the contents alone. Whether room was found is left
/// open.
#[verifier::external_body]
fn reserve_tasks(tasks: &mut VecDeque<ProcessDecodeTask>, additional: usize) -> (r: bool)
    ensures
        final(tasks)@ == old(tasks)@,
{
    tasks.try_reserve(additional).is_ok()
}

/// Calls `HashSet::try_reserve`, which leaves the contents alone. Whether room was found is left
/// open.
#[verifier::external_body]
fn reserve_starts(starts: &mut HashSet<usize>, additional: usize) -> (r: bool)
    ensures
        final(starts)@ == old(starts)@,
{
    starts.try_reserve(additional).is_ok()
}

/// Whether runtime functions are ordered by their begin.
pub open spec fn functions_sorted(functions: Seq<RuntimeFunctionRange>) -> bool {
    forall|i: int, j: int|
        0 <= i < j < functions.len() ==> (#[trigger] functions[i]).begin_rva <= (
        #[trigger] functions[j]).begin_rva
}

/// The last of the first `count` functions that begins at or before `rva`.
pub open spec fn function_before(
    functions: Seq<RuntimeFunctionRange>,
    count: int,
    rva: int,
) -> Option<RuntimeFunctionRange>
    decreases count,
{
    if count <= 0 {
        None
    } else if functions[count - 1].begin_rva <= rva {
        Some(functions[count - 1])
    } else {
        function_before(functions, count - 1, rva)
    }
}

/// The mapped span of the first executable section, from `index` on, that holds `rva`.
pub open spec fn executable_bounds(
    sections: Seq<SectionHeader>,
    index: int,
    image_size: int,
    rva: int,
) -> Option<(usize, usize)>
    decreases sections.len() - index,
{
    if index >= sections.len() {
        None
    } else {
        let section = sections[index];
        let end = if mapped_end(section) <= image_size {
            mapped_end(section)
        } else {
            image_size
        };
        if executable(section) && mapped_end(section) <= usize::MAX && section.virtual_address
            <= rva < end {
            Some((section.virtual_address as usize, end as usize))
        } else {
            executable_bounds(sections, index + 1, image_size, rva)
        }
    }
}

/// The narrowest trusted interval that holds `rva`: the runtime function around it when that lies
/// inside the executable section, else the section.
pub open spec fn decode_bounds(
    sections: Seq<SectionHeader>,
    image_size: int,
    functions: Seq<RuntimeFunctionRange>,
    rva: int,
) -> Option<(usize, usize)> {
    match executable_bounds(sections, 0, image_size, rva) {
        None => None,
        Some(section) => match function_before(functions, functions.len() as int, rva) {
            Some(function) => if rva < function.end_rva && function.begin_rva >= section.0
                && function.end_rva <= section.1 {
                Some((function.begin_rva, function.end_rva))
            } else {
                Some(section)
            },
            None => Some(section),
        },
    }
}

/// Skipping functions that begin behind `rva` does not change which one is found.
proof fn lemma_function_before(
    functions: Seq<RuntimeFunctionRange>,
    from: int,
    count: int,
    rva: int,
)
    requires
        0 <= from <= count <= functions.len(),
        forall|i: int| from <= i < count ==> (#[trigger] functions[i]).begin_rva > rva,
    ensures
        function_before(functions, count, rva) == function_before(functions, from, rva),
    decreases count - from,
{
    if from < count {
        lemma_function_before(functions, from, count - 1, rva);
    }
}

/// Finds the last runtime function that begins at or before an RVA.
fn find_function_before(functions: &[RuntimeFunctionRange], rva: usize) -> (r: Option<
    RuntimeFunctionRange,
>)
    requires
        functions_sorted(functions@),
    ensures
        r == function_before(functions@, functions@.len() as int, rva as int),
{
    let mut low: usize = 0;
    let mut high: usize = functions.len();
    while low < high
        invariant
            functions_sorted(functions@),
            low <= high <= functions@.len(),
            forall|i: int| 0 <= i < low ==> (#[trigger] functions@[i]).begin_rva <= rva,
            forall|i: int| high <= i < functions@.len() ==> (#[trigger] functions@[i]).begin_rva
                > rva,
        decreases high - low,
    {
        let middle: usize = low + (high - low) / 2;
        if functions[middle].begin_rva <= rva {
            low = middle + 1;
        } else {
            high = middle;
        }
    }
    proof {
        lemma_function_before(functions@, low as int, functions@.len() as int, rva as int);
    }
    if low == 0 {
        return None;
    }
    Some(functions[low - 1])
}

/// Finds the validated runtime-function or executable-section interval containing an RVA.
pub fn decode_bounds_at_rva(
    snapshot: &ValidatedPeSnapshot,
    runtime_functions: &[RuntimeFunctionRange],
    rva: usize,
) -> (r: Option<(usize, usize)>)
    requires
        functions_sorted(runtime_functions@),
    ensures
        r == decode_bounds(
            snapshot.pe.sections@,
            snapshot.bytes@.len() as int,
            runtime_functions@,
            rva as int,
        ),
{
    let mut section_bounds: Option<(usize, usize)> = None;
    let mut index: usize = 0;
    while index < snapshot.pe.sections.len() && section_bounds.is_none()
        invariant
            index <= snapshot.pe.sections@.len(),
            match section_bounds {
                Some(bounds) => executable_bounds(
                    snapshot.pe.sections@,
                    0,
                    snapshot.bytes@.len() as int,
                    rva as int,
                ) == Some(bounds),
                None => executable_bounds(
                    snapshot.pe.sections@,
                    0,
                    snapshot.bytes@.len() as int,
                    rva as int,
                ) == executable_bounds(
                    snapshot.pe.sections@,
                    index as int,
                    snapshot.bytes@.len() as int,
                    rva as int,
                ),
            },
        decreases snapshot.pe.sections.len() - index,
    {
        let section = &snapshot.pe.sections[index];
        if section.characteristics & IMAGE_SCN_MEM_EXECUTE != 0 {
            let section_start: usize = section.virtual_address as usize;
            match section_start.checked_add(get_mapped_section_size(section)) {
                Some(section_end) => {
                    let section_end: usize = min_usize(section_end, snapshot.bytes.len());
                    if rva >= section_start && rva < section_end {
                        section_bounds = Some((section_start, section_end));
                    }
                },
                None => {},
            }
        }
        index += 1;
    }
    let section_bounds: (usize, usize) = match section_bounds {
        Some(value) => value,
        None => return None,
    };
    match find_function_before(runtime_functions, rva) {
        Some(range) => if rva < range.end_rva && range.begin_rva >= section_bounds.0
            && range.end_rva <= section_bounds.1 {
            Some((range.begin_rva, range.end_rva))
        } else {
            Some(section_bounds)
        },
        None => Some(section_bounds),
    }
}

/// The queue after `rva` was offered to it: unchanged when `rva` was scheduled before or has no
/// trusted bounds, no queue at the limit or when no room was `granted`, else with its task.
pub open spec fn queue_after(
    queue: QueueView,
    bounds: Option<(usize, usize)>,
    rva: usize,
    granted: bool,
) -> Option<QueueView> {
    if queue.scheduled.contains(rva) {
        Some(queue)
    } else {
        match bounds {
            None => Some(queue),
            Some((bound_start, bound_end)) => if queue.scheduled.len()
                == MAXIMUM_DECODE_TASK_COUNT || !granted {
                None
            } else {
                Some(
                    QueueView {
                        tasks: queue.tasks.push(ProcessDecodeTask { rva, bound_start, bound_end }),
                        scheduled: queue.scheduled.insert(rva),
                    },
                )
            },
        }
    }
}

/// What becomes of a decode target that is offered to a queue.
#[derive(Clone, Copy, Debug, Eq, PartialEq, Structural)]
pub enum DecodePlan {
    Skip,
    LimitReached,
    Queue(ProcessDecodeTask),
}

/// What becomes of `rva` when it is offered to `queue`.
pub open spec fn decode_plan(
    queue: QueueView,
    bounds: Option<(usize, usize)>,
    rva: usize,
) -> DecodePlan {
    if queue.scheduled.contains(rva) || bounds is None {
        DecodePlan::Skip
    } else if queue.scheduled.len() == MAXIMUM_DECODE_TASK_COUNT {
        DecodePlan::LimitReached
    } else {
        let (bound_start, bound_end) = bounds->0;
        DecodePlan::Queue(ProcessDecodeTask { rva, bound_start, bound_end })
    }
}

/// Decides what becomes of a decode target.
pub fn plan_decode_task(
    queue: &DecodeQueue,
    snapshot: &ValidatedPeSnapshot,
    runtime_functions: &[RuntimeFunctionRange],
    rva: usize,
) -> (r: DecodePlan)
    requires
        functions_sorted(runtime_functions@),
    ensures
        r == decode_plan(
            queue@,
            decode_bounds(
                snapshot.pe.sections@,
                snapshot.bytes@.len() as int,
                runtime_functions@,
                rva as int,
            ),
            rva,
        ),
{
    if queue.scheduled_starts.contains(&rva) {
        return DecodePlan::Skip;
    }
    let (bound_start, bound_end) = match decode_bounds_at_rva(snapshot, runtime_functions, rva) {
        Some(value) => value,
        None => return DecodePlan::Skip,
    };
    if queue.scheduled_starts.len() == MAXIMUM_DECODE_TASK_COUNT {
        return DecodePlan::LimitReached;
    }
    DecodePlan::Queue(ProcessDecodeTask { rva, bound_start, bound_end })
}

/// Appends a task and remembers its start.
pub fn add_decode_task(queue: &mut DecodeQueue, task: ProcessDecodeTask)
    ensures
        final(queue)@ == (QueueView {
            tasks: old(queue)@.tasks.push(task),
            scheduled: old(queue)@.scheduled.insert(task.rva),
        }),
{
    queue.scheduled_starts.insert(task.rva);
    queue.tasks.push_back(task);
}

/// Queues one unique decode target with its narrowest trusted code bounds: `Some(true)` when
/// queued, `Some(false)` when skipped, `None` at the limit or when no room was found.
pub fn enqueue_decode_task(
    queue: &mut DecodeQueue,
    snapshot: &ValidatedPeSnapshot,
    runtime_functions: &[RuntimeFunctionRange],
    rva: usize,
) -> (r: Option<bool>)
    requires
        old(queue)@.wf(),
        functions_sorted(runtime_functions@),
    ensures
        final(queue)@.wf(),
        ({
            let bounds = decode_bounds(
                snapshot.pe.sections@,
                snapshot.bytes@.len() as int,
                runtime_functions@,
                rva as int,
            );
            match r {
                None => {
                    &&& queue_after(old(queue)@, bounds, rva, false) is None
                    &&& final(queue)@ == old(queue)@
                },
                Some(queued) => {
                    &&& queue_after(old(queue)@, bounds, rva, true) == Some(final(queue)@)
                    &&& queued == (!old(queue)@.scheduled.contains(rva) && bounds is Some)
                },
            }
        }),
{
    match plan_decode_task(queue, snapshot, runtime_functions, rva) {
        DecodePlan::Skip => Some(false),
        DecodePlan::LimitReached => None,
        DecodePlan::Queue(task) => {
            if !reserve_tasks(&mut queue.tasks, 1) || !reserve_starts(
                &mut queue.scheduled_starts,
                1,
            ) {
                return None;
            }
            add_decode_task(queue, task);
            Some(true)
        },
    }
}

/// The queue seeded with the begins of the first `count` runtime functions, if the limit allows.
pub open spec fn seeded_functions(
    sections: Seq<SectionHeader>,
    image_size: int,
    functions: Seq<RuntimeFunctionRange>,
    count: int,
) -> Option<QueueView>
    decreases count,
{
    if count <= 0 {
        Some(QueueView { tasks: Seq::empty(), scheduled: Set::empty() })
    } else {
        match seeded_functions(sections, image_size, functions, count - 1) {
            None => None,
            Some(queue) => queue_after(
                queue,
                decode_bounds(
                    sections,
                    image_size,
                    functions,
                    functions[count - 1].begin_rva as int,
                ),
                functions[count - 1].begin_rva,
                true,
            ),
        }
    }
}

/// The queue seeded with every runtime function and the entry point, if the limit allows.
pub open spec fn seeded_queue(
    sections: Seq<SectionHeader>,
    image_size: int,
    functions: Seq<RuntimeFunctionRange>,
    entry_point_rva: usize,
) -> Option<QueueView> {
    match seeded_functions(sections, image_size, functions, functions.len() as int) {
        None => None,
        Some(queue) => queue_after(
            queue,
            decode_bounds(sections, image_size, functions, entry_point_rva as int),
            entry_point_rva,
            true,
        ),
    }
}

/// Offers a seed to a queue that has room for it and has not reached the limit.
fn add_seed(
    queue: &mut DecodeQueue,
    snapshot: &ValidatedPeSnapshot,
    runtime_functions: &[RuntimeFunctionRange],
    rva: usize,
)
    requires
        old(queue)@.scheduled.finite(),
        old(queue)@.scheduled.len() < MAXIMUM_DECODE_TASK_COUNT,
        functions_sorted(runtime_functions@),
    ensures
        final(queue)@.scheduled.finite(),
        final(queue)@.scheduled.len() <= old(queue)@.scheduled.len() + 1,
        queue_after(
            old(queue)@,
            decode_bounds(
                snapshot.pe.sections@,
                snapshot.bytes@.len() as int,
                runtime_functions@,
                rva as int,
            ),
            rva,
            true,
        ) == Some(final(queue)@),
{
    match plan_decode_task(queue, snapshot, runtime_functions, rva) {
        DecodePlan::Queue(task) => {
            add_decode_task(queue, task);
        },
        DecodePlan::Skip => {},
        DecodePlan::LimitReached => {},
    }
}

/// Seeds an empty queue that has room for every seed with the begins of the runtime functions and
/// the entry point.
pub fn seed_decode_tasks(
    tasks: DecodeQueue,
    snapshot: &ValidatedPeSnapshot,
    runtime_functions: &[RuntimeFunctionRange],
    entry_point_rva: usize,
) -> (r: DecodeQueue)
    requires
        tasks@.tasks.len() == 0,
        tasks@.scheduled == Set::<usize>::empty(),
        runtime_functions@.len() + 1 <= MAXIMUM_DECODE_TASK_COUNT,
        functions_sorted(runtime_functions@),
    ensures
        r@.wf(),
        seeded_queue(
            snapshot.pe.sections@,
            snapshot.bytes@.len() as int,
            runtime_functions@,
            entry_point_rva,
        ) == Some(r@),
{
    let mut queue = tasks;
    assert(queue@.tasks =~= Seq::<ProcessDecodeTask>::empty());
    let mut index: usize = 0;
    while index < runtime_functions.len()
        invariant
            functions_sorted(runtime_functions@),
            runtime_functions@.len() + 1 <= MAXIMUM_DECODE_TASK_COUNT,
            index <= runtime_functions@.len(),
            queue@.scheduled.finite(),
            queue@.scheduled.len() <= index,
            seeded_functions(
                snapshot.pe.sections@,
                snapshot.bytes@.len() as int,
                runtime_functions@,
                index as int,
            ) == Some(queue@),
        decreases runtime_functions.len() - index,
    {
        add_seed(&mut queue, snapshot, runtime_functions, runtime_functions[index].begin_rva);
        index += 1;
    }
    add_seed(&mut queue, snapshot, runtime_functions, entry_point_rva);
    queue
}

/// Creates a decode queue from trusted metadata seeds. There is none when the seeds exceed the
/// limit or no room was found for them; with room for them it is the seeded queue.
pub fn initialize_decode_tasks(
    snapshot: &ValidatedPeSnapshot,
    runtime_functions: &[RuntimeFunctionRange],
    entry_point_rva: usize,
) -> (r: Option<DecodeQueue>)
    requires
        functions_sorted(runtime_functions@),
    ensures
        runtime_functions@.len() + 1 > MAXIMUM_DECODE_TASK_COUNT ==> r is None,
        r is Some ==> {
            &&& r->0@.wf()
            &&& seeded_queue(
                snapshot.pe.sections@,
                snapshot.bytes@.len() as int,
                runtime_functions@,
                entry_point_rva,
            ) == Some(r->0@)
        },
{
    let initial_capacity: usize = match runtime_functions.len().checked_add(1) {
        Some(value) => value,
        None => return None,
    };
    if initial_capacity > MAXIMUM_DECODE_TASK_COUNT {
        return None;
    }
    let mut queue = DecodeQueue { tasks: VecDeque::new(), scheduled_starts: HashSet::new() };
    if !reserve_tasks(&mut queue.tasks, initial_capacity) || !reserve_starts(
        &mut queue.scheduled_starts,
        initial_capacity,
    ) {
        return None;
    }
    Some(seed_decode_tasks(queue, snapshot, runtime_functions, entry_point_rva))
}

/// Where decoding goes on inside a task.
pub type DecodePosition = Option<(ProcessDecodeTask, usize)>;

/// Whether an instruction of this flow goes on with the next one.
pub open spec fn falls_through(flow: u32, supported_interrupt: bool) -> bool {
    ||| flow == FLOW_NEXT
    ||| flow == FLOW_INDIRECT_CALL
    ||| flow == FLOW_CONDITIONAL_BRANCH
    ||| flow == FLOW_CALL
    ||| flow == FLOW_XBEGIN_XABORT_XEND
    ||| (flow == FLOW_INTERRUPT || flow == FLOW_EXCEPTION) && supported_interrupt
}

/// Whether the branch target of an instruction of this flow is scheduled.
pub open spec fn schedules_target(flow: u32) -> bool {
    ||| flow == FLOW_CONDITIONAL_BRANCH
    ||| flow == FLOW_CALL
    ||| flow == FLOW_XBEGIN_XABORT_XEND
    ||| flow == FLOW_UNCONDITIONAL_BRANCH
}

/// The queue after an instruction of this flow.
pub open spec fn queue_after_flow(
    queue: QueueView,
    sections: Seq<SectionHeader>,
    image_size: int,
    functions: Seq<RuntimeFunctionRange>,
    flow: u32,
    target: Option<usize>,
    granted: bool,
) -> Option<QueueView> {
    if schedules_target(flow) && target is Some {
        queue_after(
            queue,
            decode_bounds(sections, image_size, functions, target->0 as int),
            target->0,
            granted,
        )
    } else {
        Some(queue)
    }
}

/// Where decoding goes on after an instruction of this flow.
pub open spec fn position_after_flow(
    task: ProcessDecodeTask,
    next_rva: usize,
    flow: u32,
    supported_interrupt: bool,
) -> DecodePosition {
    if falls_through(flow, supported_interrupt) {
        Some((task, next_rva))
    } else {
        None
    }
}

/// Schedules what an instruction leads to and returns where decoding goes on; `None` when its
/// target could not be scheduled.
pub fn follow_flow(
    queue: &mut DecodeQueue,
    snapshot: &ValidatedPeSnapshot,
    runtime_functions: &[RuntimeFunctionRange],
    task: ProcessDecodeTask,
    next_rva: usize,
    flow: u32,
    target: Option<usize>,
    supported_interrupt: bool,
) -> (r: Option<DecodePosition>)
    requires
        old(queue)@.wf(),
        functions_sorted(runtime_functions@),
    ensures
        final(queue)@.wf(),
        match r {
            None => {
                &&& queue_after_flow(
                    old(queue)@,
                    snapshot.pe.sections@,
                    snapshot.bytes@.len() as int,
                    runtime_functions@,
                    flow,
                    target,
                    false,
                ) is None
                &&& final(queue)@ == old(queue)@
            },
            Some(position) => {
                &&& queue_after_flow(
                    old(queue)@,
                    snapshot.pe.sections@,
                    snapshot.bytes@.len() as int,
                    runtime_functions@,
                    flow,
                    target,
                    true,
                ) == Some(final(queue)@)
                &&& position == position_after_flow(task, next_rva, flow, supported_interrupt)
            },
        },
{
    if flow == FLOW_CONDITIONAL_BRANCH || flow == FLOW_CALL || flow == FLOW_XBEGIN_XABORT_XEND
        || flow == FLOW_UNCONDITIONAL_BRANCH {
        match target {
            Some(rva) => {
                if enqueue_decode_task(queue, snapshot, runtime_functions, rva).is_none() {
                    return None;
                }
            },
            None => {},
        }
    }
    if flow == FLOW_NEXT || flow == FLOW_INDIRECT_CALL || flow == FLOW_CONDITIONAL_BRANCH || flow
        == FLOW_CALL || flow == FLOW_XBEGIN_XABORT_XEND || ((flow == FLOW_INTERRUPT || flow
        == FLOW_EXCEPTION) && supported_interrupt) {
        Some(Some((task, next_rva)))
    } else {
        Some(None)
    }
}

} // verus!
