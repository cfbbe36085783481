//! Seeds and bounds of a decode, padding, and trust in the raw executable.

use vstd::prelude::*;

use crate::bytes::le32;
use crate::code_section::RuntimeFunctionRange;
use crate::laws::locate::section_end;
use crate::laws::traversal::{image_bounds, seeds_have_tasks, task_for};
use crate::opcode::collect::BaselineTrust;
use crate::opcode::evaluate::{
    runtime_function_check, same_bounds, ProcessOpcodeBackingStatus, ProcessOpcodeRelocationStatus,
};
use crate::opcode::padding::{
    likely_padding, padding_in, padding_runs, padding_sample, PaddingContext,
    ProcessOpcodePaddingSample,
};
use crate::opcode::queue::{
    decode_bounds, executable_bounds, function_before, functions_sorted, queue_after,
    seeded_functions, seeded_queue, QueueView,
};
use crate::backing::ValidatedPeFile;
use crate::pe::types::{PeImage, SectionHeader, ValidatedPeSnapshot};
use crate::scan::{scan_end, scan_size, scanned};

verus! {

/// Whether section `i` is executable and holds `rva` inside the image.
pub open spec fn executes(
    sections: Seq<SectionHeader>,
    image_size: int,
    rva: int,
    i: int,
) -> bool {
    &&& 0 <= i < sections.len()
    &&& sections[i].characteristics & 0x2000_0000 != 0
    &&& section_end(sections[i]) <= usize::MAX
    &&& sections[i].virtual_address <= rva < section_end(sections[i])
    &&& rva < image_size
}

/// The executable section that holds an RVA, from `index` on.
proof fn lemma_executable_bounds(
    sections: Seq<SectionHeader>,
    index: int,
    image_size: int,
    rva: int,
) -> (i: int)
    requires
        0 <= index,
        0 <= image_size <= usize::MAX,
    ensures
        match executable_bounds(sections, index, image_size, rva) {
            Some(bounds) => {
                &&& index <= i
                &&& executes(sections, image_size, rva, i)
                &&& bounds.0 == sections[i].virtual_address
                &&& bounds.1 <= section_end(sections[i])
                &&& bounds.1 <= image_size
                &&& bounds.1 == section_end(sections[i]) || bounds.1 == image_size
                &&& forall|j: int|
                    index <= j < i ==> !(#[trigger] executes(sections, image_size, rva, j))
            },
            None => forall|j: int|
                index <= j ==> !(#[trigger] executes(sections, image_size, rva, j)),
        },
    decreases sections.len() - index,
{
    if index >= sections.len() || executes(sections, image_size, rva, index) {
        index
    } else {
        lemma_executable_bounds(sections, index + 1, image_size, rva)
    }
}

/// The last function that begins at or before an RVA.
proof fn lemma_function_around(
    functions: Seq<RuntimeFunctionRange>,
    count: int,
    rva: int,
) -> (f: int)
    requires
        0 <= count <= functions.len(),
    ensures
        match function_before(functions, count, rva) {
            Some(function) => {
                &&& 0 <= f < count
                &&& function == functions[f]
                &&& functions[f].begin_rva <= rva
                &&& forall|g: int| f < g < count ==> (#[trigger] functions[g]).begin_rva > rva
            },
            None => forall|g: int| 0 <= g < count ==> (#[trigger] functions[g]).begin_rva > rva,
        },
    decreases count,
{
    if count <= 0 || functions[count - 1].begin_rva <= rva {
        count - 1
    } else {
        lemma_function_around(functions, count - 1, rva)
    }
}

/// An RVA has trusted bounds exactly when an executable section holds it. They hold the RVA and lie
/// in that section and in the image: they are those of the function around it, where there is one
/// inside the section, else those of the section.
pub proof fn law_trusted_bounds(
    sections: Seq<SectionHeader>,
    image_size: int,
    functions: Seq<RuntimeFunctionRange>,
    rva: int,
) -> (place: (int, int))
    requires
        0 <= image_size <= usize::MAX,
        functions_sorted(functions),
    ensures
        decode_bounds(sections, image_size, functions, rva) is Some <==> exists|i: int| #[trigger]
            executes(sections, image_size, rva, i),
        match decode_bounds(sections, image_size, functions, rva) {
            Some(bounds) => {
                let (i, f) = place;
                let end = if section_end(sections[i]) <= image_size {
                    section_end(sections[i])
                } else {
                    image_size
                };
                let around = 0 <= f < functions.len() && functions[f].begin_rva <= rva
                    < functions[f].end_rva && sections[i].virtual_address <= functions[f].begin_rva
                    && functions[f].end_rva <= end;
                &&& executes(sections, image_size, rva, i)
                &&& bounds.0 <= rva < bounds.1 <= image_size
                &&& around ==> bounds.0 == functions[f].begin_rva && bounds.1
                    == functions[f].end_rva
                &&& !around ==> bounds.0 == sections[i].virtual_address && bounds.1 == end
                &&& forall|g: int|
                    0 <= g < functions.len() && functions[g].begin_rva <= rva ==> (
                    #[trigger] functions[g]).begin_rva <= functions[f].begin_rva
            },
            None => true,
        },
{
    let i = lemma_executable_bounds(sections, 0, image_size, rva);
    let f = lemma_function_around(functions, functions.len() as int, rva);
    if executable_bounds(sections, 0, image_size, rva) is Some {
        assert(executes(sections, image_size, rva, i));
    } else {
        assert forall|j: int| !(#[trigger] executes(sections, image_size, rva, j)) by {
            if 0 <= j {
                assert(!executes(sections, image_size, rva, j));
            }
        }
    }
    if function_before(functions, functions.len() as int, rva) is Some {
        assert forall|g: int|
            0 <= g < functions.len() && functions[g].begin_rva <= rva implies (
        #[trigger] functions[g]).begin_rva <= functions[f].begin_rva by {
            if g < f {
                assert(functions[g].begin_rva <= functions[f].begin_rva);
            }
        }
        (i, f)
    } else {
        (i, -1)
    }
}

/// Whether a queue has every scheduled RVA as a task with its bounds, and nothing else.
spec fn queue_in_order(
    queue: QueueView,
    sections: Seq<SectionHeader>,
    image_size: int,
    functions: Seq<RuntimeFunctionRange>,
) -> bool {
    forall|t: usize| #[trigger]
        queue.scheduled.contains(t) ==> {
            let bounds = decode_bounds(sections, image_size, functions, t as int);
            bounds is Some && queue.tasks.contains(task_for(t, bounds->0))
        }
}

/// Offering an RVA keeps a queue in order.
proof fn lemma_offer(
    queue: QueueView,
    sections: Seq<SectionHeader>,
    image_size: int,
    functions: Seq<RuntimeFunctionRange>,
    rva: usize,
)
    requires
        queue_in_order(queue, sections, image_size, functions),
    ensures
        ({
            let bounds = decode_bounds(sections, image_size, functions, rva as int);
            match queue_after(queue, bounds, rva, true) {
                Some(after) => {
                    &&& queue_in_order(after, sections, image_size, functions)
                    &&& queue.scheduled.subset_of(after.scheduled)
                    &&& bounds is Some ==> after.scheduled.contains(rva)
                },
                None => true,
            }
        }),
{
    let bounds = decode_bounds(sections, image_size, functions, rva as int);
    match queue_after(queue, bounds, rva, true) {
        Some(after) => {
            assert forall|t: usize| #[trigger] after.scheduled.contains(t) implies ({
                let bounds = decode_bounds(sections, image_size, functions, t as int);
                bounds is Some && after.tasks.contains(task_for(t, bounds->0))
            }) by {
                if queue.scheduled.contains(t) {
                    let here = decode_bounds(sections, image_size, functions, t as int);
                    let n = queue.tasks.index_of(task_for(t, here->0));
                    assert(after.tasks[n] == task_for(t, here->0));
                } else {
                    assert(after.tasks.last() == task_for(rva, bounds->0));
                }
            }
        },
        None => {},
    }
}

/// The functions that were offered.
proof fn lemma_seeded_functions(
    sections: Seq<SectionHeader>,
    image_size: int,
    functions: Seq<RuntimeFunctionRange>,
    count: int,
)
    requires
        0 <= count <= functions.len(),
    ensures
        match seeded_functions(sections, image_size, functions, count) {
            Some(queue) => {
                &&& queue_in_order(queue, sections, image_size, functions)
                &&& forall|f: int|
                    0 <= f < count && decode_bounds(
                        sections,
                        image_size,
                        functions,
                        functions[f].begin_rva as int,
                    ) is Some ==> queue.scheduled.contains((#[trigger] functions[f]).begin_rva)
            },
            None => true,
        },
    decreases count,
{
    if count > 0 {
        lemma_seeded_functions(sections, image_size, functions, count - 1);
        match seeded_functions(sections, image_size, functions, count - 1) {
            Some(queue) => {
                lemma_offer(
                    queue,
                    sections,
                    image_size,
                    functions,
                    functions[count - 1].begin_rva,
                );
            },
            None => {},
        }
    }
}

/// A decode is seeded with every runtime function and with the entry point, wherever they have
/// trusted bounds, and each seed is a task with those bounds.
pub proof fn law_every_function_is_seeded(
    snapshot: ValidatedPeSnapshot,
    functions: Seq<RuntimeFunctionRange>,
    entry_point_rva: usize,
    f: int,
)
    requires
        seeded_queue(
            snapshot.pe.sections@,
            snapshot.bytes@.len() as int,
            functions,
            entry_point_rva,
        ) is Some,
    ensures
        ({
            let sections = snapshot.pe.sections@;
            let len = snapshot.bytes@.len() as int;
            let queue = seeded_queue(sections, len, functions, entry_point_rva)->0;
            let entry = decode_bounds(sections, len, functions, entry_point_rva as int);
            &&& seeds_have_tasks(queue, image_bounds(snapshot, functions))
            &&& entry is Some ==> queue.tasks.contains(task_for(entry_point_rva, entry->0))
            &&& 0 <= f < functions.len() ==> {
                let bounds = decode_bounds(
                    sections,
                    len,
                    functions,
                    functions[f].begin_rva as int,
                );
                bounds is Some ==> queue.tasks.contains(
                    task_for(functions[f].begin_rva, bounds->0),
                )
            }
        }),
{
    let sections = snapshot.pe.sections@;
    let len = snapshot.bytes@.len() as int;
    let count = functions.len() as int;
    lemma_seeded_functions(sections, len, functions, count);
    let before = seeded_functions(sections, len, functions, count)->0;
    lemma_offer(before, sections, len, functions, entry_point_rva);
    let queue = seeded_queue(sections, len, functions, entry_point_rva)->0;
    if 0 <= f < count && decode_bounds(
        sections,
        len,
        functions,
        functions[f].begin_rva as int,
    ) is Some {
        assert(before.scheduled.contains(functions[f].begin_rva));
        assert(queue.scheduled.contains(functions[f].begin_rva));
    }
}

/// Whether the byte at `rva` is `CC` in the process and in the raw executable, is available, and
/// belongs to no decoded instruction of a usable decode.
pub open spec fn is_padding(context: PaddingContext, rva: int) -> bool {
    &&& context.coverage_usable
    &&& !context.coverage.contains(rva)
    &&& context.snapshot.bytes@[rva] == 0xCC
    &&& context.file is Some
    &&& context.file->0.byte_at(rva) == Some(0xCCu8)
    &&& forall|u: int|
        0 <= u < context.snapshot.unavailable_ranges@.len() ==> !((
        #[trigger] context.snapshot.unavailable_ranges@[u]).rva <= rva
            < context.snapshot.unavailable_ranges@[u].rva
            + context.snapshot.unavailable_ranges@[u].size)
}

/// Two ways to look at padding.
proof fn lemma_is_padding(context: PaddingContext, rva: int)
    ensures
        likely_padding(context, rva) <==> is_padding(context, rva),
{
    let ranges = context.snapshot.unavailable_ranges@;
    if is_padding(context, rva) {
        assert forall|u: int| 0 <= u < ranges.len() implies !crate::ranges::overlap(
            rva,
            1,
            (#[trigger] ranges[u]).rva as int,
            ranges[u].size as int,
        ) by {}
    }
    if likely_padding(context, rva) {
        assert forall|u: int| 0 <= u < ranges.len() implies !((#[trigger] ranges[u]).rva <= rva
            < ranges[u].rva + ranges[u].size) by {}
    }
}

/// Whether a run of padding of at least two bytes stands in section `i` from `a` up to `b`, between
/// bytes that are no padding or the ends of what is scanned.
pub open spec fn run_stands(context: PaddingContext, i: int, a: int, b: int) -> bool {
    let section = context.snapshot.pe.sections@[i];
    let len = context.snapshot.bytes@.len() as int;
    let end = if section_end(section) <= len {
        section_end(section)
    } else {
        len
    };
    &&& 0 <= i < context.snapshot.pe.sections@.len()
    &&& section.characteristics & 0x2000_0000 != 0
    &&& section.virtual_address <= a
    &&& a + 2 <= b <= end
    &&& forall|x: int| a <= x < b ==> #[trigger] is_padding(context, x)
    &&& a == section.virtual_address || !is_padding(context, a - 1)
    &&& b == end || !is_padding(context, b)
}

/// The runs of one section so far: what was found before stays, a run that ended is listed, and an
/// open one began where padding began.
proof fn lemma_padding_in(
    context: PaddingContext,
    i: int,
    offsets: int,
    runs: Seq<ProcessOpcodePaddingSample>,
)
    requires
        0 <= offsets,
    ensures
        ({
            let state = padding_in(context, i, offsets, runs);
            let start = context.snapshot.pe.sections@[i].virtual_address as int;
            &&& runs.len() <= state.runs.len()
            &&& forall|n: int| 0 <= n < runs.len() ==> #[trigger] state.runs[n] == runs[n]
            &&& match state.open_at {
                Some(open) => {
                    &&& 0 <= open < offsets
                    &&& forall|x: int|
                        start + open <= x < start + offsets ==> #[trigger] is_padding(context, x)
                    &&& open == 0 || !is_padding(context, start + open - 1)
                },
                None => offsets == 0 || !is_padding(context, start + offsets - 1),
            }
            &&& forall|n: int|
                runs.len() <= n < state.runs.len() ==> run_listed(
                    context,
                    i,
                    #[trigger] state.runs[n],
                    offsets,
                )
            &&& forall|a: int, b: int|
                0 <= a && a + 2 <= b < offsets && #[trigger] run_within(context, i, a, b)
                    ==> state.runs.contains(padding_sample(context, i, a, b - a))
        }),
    decreases offsets,
{
    let start = context.snapshot.pe.sections@[i].virtual_address as int;
    if offsets > 0 {
        lemma_padding_in(context, i, offsets - 1, runs);
        let before = padding_in(context, i, offsets - 1, runs);
        let state = padding_in(context, i, offsets, runs);
        let x = start + offsets - 1;
        lemma_is_padding(context, x);
        assert forall|n: int| runs.len() <= n < state.runs.len() implies run_listed(
            context,
            i,
            #[trigger] state.runs[n],
            offsets,
        ) by {
            if n < before.runs.len() {
                assert(state.runs[n] == before.runs[n]);
                assert(run_listed(context, i, before.runs[n], offsets - 1));
                let (a, b) = choose|a: int, b: int|
                    0 <= a && a + 2 <= b <= offsets - 1 && #[trigger] run_within(context, i, a, b)
                        && before.runs[n] == padding_sample(context, i, a, b - a);
                assert(run_within(context, i, a, b));
            } else {
                let open = before.open_at->0;
                assert(run_within(context, i, open, offsets - 1));
            }
        }
        assert forall|a: int, b: int|
            0 <= a && a + 2 <= b < offsets && #[trigger] run_within(
                context,
                i,
                a,
                b,
            ) implies state.runs.contains(padding_sample(context, i, a, b - a)) by {
            let sample = padding_sample(context, i, a, b - a);
            if b < offsets - 1 {
                let n = before.runs.index_of(sample);
                assert(state.runs[n] == sample);
            } else {
                assert(is_padding(context, start + a));
                assert(is_padding(context, start + b - 1));
                match before.open_at {
                    Some(open) => {
                        if open < a {
                            assert(is_padding(context, start + a - 1));
                        }
                        if a < open {
                            assert(is_padding(context, start + open - 1));
                        }
                        assert(open == a);
                        assert(state.runs.last() == sample);
                    },
                    None => {},
                }
            }
        }
    }
}

/// Whether padding stands from offset `a` up to offset `b` of section `i`, and neither before nor at
/// the end.
spec fn run_within(context: PaddingContext, i: int, a: int, b: int) -> bool {
    let start = context.snapshot.pe.sections@[i].virtual_address as int;
    &&& forall|x: int| start + a <= x < start + b ==> #[trigger] is_padding(context, x)
    &&& a == 0 || !is_padding(context, start + a - 1)
    &&& !is_padding(context, start + b)
}

/// Whether a sample is of a run that ended in the first `offsets` offsets.
spec fn run_listed(
    context: PaddingContext,
    i: int,
    sample: ProcessOpcodePaddingSample,
    offsets: int,
) -> bool {
    exists|a: int, b: int|
        0 <= a && a + 2 <= b <= offsets && #[trigger] run_within(context, i, a, b) && sample
            == padding_sample(context, i, a, b - a)
}

/// The runs of one scanned section: what was found before stays, and the runs are those that stand
/// there.
proof fn lemma_section_runs(context: PaddingContext, count: int)
    requires
        0 < count <= context.snapshot.pe.sections@.len() <= usize::MAX,
        context.snapshot.bytes@.len() <= usize::MAX,
        scanned(context.snapshot.pe.sections@[count - 1], context.snapshot.bytes@.len() as int),
    ensures
        ({
            let before = padding_runs(context, count - 1);
            let all = padding_runs(context, count);
            let start = context.snapshot.pe.sections@[count - 1].virtual_address as int;
            &&& before.len() <= all.len()
            &&& forall|n: int| 0 <= n < before.len() ==> #[trigger] all[n] == before[n]
            &&& forall|n: int|
                before.len() <= n < all.len() ==> sample_stands(
                    context,
                    count - 1,
                    #[trigger] all[n],
                )
            &&& forall|a: int, b: int| #[trigger]
                run_stands(context, count - 1, a, b) ==> all.contains(
                    padding_sample(context, count - 1, a - start, b - a),
                )
        }),
{
    let i = count - 1;
    let section = context.snapshot.pe.sections@[i];
    let len = context.snapshot.bytes@.len() as int;
    let start = section.virtual_address as int;
    let size = scan_size(section, len);
    let before = padding_runs(context, count - 1);
    let state = padding_in(context, i, size, before);
    let all = padding_runs(context, count);
    lemma_padding_in(context, i, size, before);
    assert(scan_end(section, len) == start + size);
    assert forall|n: int| 0 <= n < before.len() implies #[trigger] all[n] == before[n] by {
        assert(state.runs[n] == before[n]);
    }
    assert forall|n: int| before.len() <= n < all.len() implies sample_stands(
        context,
        i,
        #[trigger] all[n],
    ) by {
        if n < state.runs.len() {
            assert(all[n] == state.runs[n]);
            assert(run_listed(context, i, state.runs[n], size));
            let (a, b) = choose|a: int, b: int|
                0 <= a && a + 2 <= b <= size && #[trigger] run_within(context, i, a, b)
                    && state.runs[n] == padding_sample(context, i, a, b - a);
            assert(run_stands(context, i, start + a, start + b));
        } else {
            let open = state.open_at->0;
            assert(run_stands(context, i, start + open, start + size));
        }
    }
    assert forall|a: int, b: int| #[trigger] run_stands(context, i, a, b) implies all.contains(
        padding_sample(context, i, a - start, b - a),
    ) by {
        let sample = padding_sample(context, i, a - start, b - a);
        assert(is_padding(context, a));
        assert(is_padding(context, b - 1));
        if b < start + size {
            assert(run_within(context, i, a - start, b - start));
            assert(state.runs.contains(sample));
            let n = state.runs.index_of(sample);
            assert(all[n] == sample);
        } else {
            assert(b == start + size);
            match state.open_at {
                Some(open) => {
                    if start + open < a {
                        assert(is_padding(context, a - 1));
                    }
                    if a < start + open {
                        assert(is_padding(context, start + open - 1));
                    }
                    assert(all.last() == sample);
                },
                None => {},
            }
        }
    }
}

/// Whether a sample says where a run of padding of section `i` stands.
pub open spec fn sample_stands(
    context: PaddingContext,
    i: int,
    sample: ProcessOpcodePaddingSample,
) -> bool {
    &&& run_stands(context, i, sample.rva as int, sample.rva + sample.length)
    &&& sample.section_index == i
    &&& sample.file_offset == context.snapshot.pe.file_offset(sample.rva as int)
    &&& match sample.address {
        Some(address) => address == context.base_address + sample.rva,
        None => context.base_address + sample.rva > usize::MAX,
    }
}

/// Whether a sample says where a run of padding of some section stands.
spec fn stands_somewhere(context: PaddingContext, sample: ProcessOpcodePaddingSample) -> bool {
    exists|i: int| #[trigger] sample_stands(context, i, sample)
}

/// The runs of the first sections.
proof fn lemma_runs(context: PaddingContext, count: int, i: int, a: int, b: int)
    requires
        0 <= count <= context.snapshot.pe.sections@.len() <= usize::MAX,
        context.snapshot.bytes@.len() <= usize::MAX,
    ensures
        forall|n: int|
            0 <= n < padding_runs(context, count).len() ==> stands_somewhere(
                context,
                #[trigger] padding_runs(context, count)[n],
            ),
        i < count && run_stands(context, i, a, b) ==> padding_runs(context, count).contains(
            padding_sample(
                context,
                i,
                a - context.snapshot.pe.sections@[i].virtual_address,
                b - a,
            ),
        ),
    decreases count,
{
    if count > 0 {
        lemma_runs(context, count - 1, i, a, b);
        let section = context.snapshot.pe.sections@[count - 1];
        let len = context.snapshot.bytes@.len() as int;
        let before = padding_runs(context, count - 1);
        let all = padding_runs(context, count);
        if scanned(section, len) {
            lemma_section_runs(context, count);
            assert forall|n: int| 0 <= n < all.len() implies stands_somewhere(
                context,
                #[trigger] all[n],
            ) by {
                if n < before.len() {
                    assert(all[n] == before[n]);
                    assert(stands_somewhere(context, before[n]));
                } else {
                    assert(sample_stands(context, count - 1, all[n]));
                }
            }
            if i < count - 1 && run_stands(context, i, a, b) {
                let sample = padding_sample(
                    context,
                    i,
                    a - context.snapshot.pe.sections@[i].virtual_address,
                    b - a,
                );
                let n = before.index_of(sample);
                assert(all[n] == sample);
            }
        }
    }
}

/// Every run of padding is listed, with its place and its length.
pub proof fn law_every_padding_run_is_listed(
    context: PaddingContext,
    i: int,
    a: int,
    b: int,
) -> (n: int)
    requires
        context.snapshot.pe.sections@.len() <= usize::MAX,
        context.snapshot.bytes@.len() <= usize::MAX,
        run_stands(context, i, a, b),
    ensures
        ({
            let runs = padding_runs(context, context.snapshot.pe.sections@.len() as int);
            &&& 0 <= n < runs.len()
            &&& runs[n].rva == a
            &&& runs[n].length == b - a
            &&& runs[n].section_index == i
        }),
{
    let count = context.snapshot.pe.sections@.len() as int;
    lemma_runs(context, count, i, a, b);
    let sample = padding_sample(
        context,
        i,
        a - context.snapshot.pe.sections@[i].virtual_address,
        b - a,
    );
    padding_runs(context, count).index_of(sample)
}

/// Nothing else is listed as padding.
pub proof fn law_listed_padding_stands(context: PaddingContext, n: int) -> (i: int)
    requires
        context.snapshot.pe.sections@.len() <= usize::MAX,
        context.snapshot.bytes@.len() <= usize::MAX,
        0 <= n < padding_runs(context, context.snapshot.pe.sections@.len() as int).len(),
    ensures
        sample_stands(
            context,
            i,
            padding_runs(context, context.snapshot.pe.sections@.len() as int)[n],
        ),
{
    let count = context.snapshot.pe.sections@.len() as int;
    lemma_runs(context, count, 0, 0, 0);
    assert(stands_somewhere(context, padding_runs(context, count)[n]));
    choose|i: int| #[trigger] sample_stands(context, i, padding_runs(context, count)[n])
}

/// Mapped functions are those of the raw executable exactly when its exception directory has one
/// entry for each, stored whole, with the same begin and the same end.
pub proof fn law_functions_match_the_file(
    file: ValidatedPeFile,
    pe: PeImage,
    functions: Seq<RuntimeFunctionRange>,
)
    requires
        file.wf(),
        file.bytes@.len() <= usize::MAX,
    ensures
        runtime_function_check(file, pe, functions) == Ok::<
            bool,
            crate::opcode::evaluate::RuntimeFunctionMismatch,
        >(true) <==> {
            let directory = pe.nt_headers@.data_directories[3];
            let rva = directory.virtual_address;
            let stored = file.file_range(rva as int);
            &&& pe.nt_headers.optional_header.number_of_rva_and_sizes >= 4
            &&& pe.nt_headers.file_header.size_of_optional_header >= 144
            &&& rva != 0
            &&& rva % 4 == 0
            &&& directory.size != 0
            &&& directory.size == 12 * functions.len()
            &&& stored is Some
            &&& (stored->0).0 + directory.size <= (stored->0).1
            &&& forall|i: int|
                0 <= i < functions.len() ==> le32(file.bytes@, (stored->0).0 + 12 * i)
                    == (#[trigger] functions[i]).begin_rva && le32(
                    file.bytes@,
                    (stored->0).0 + 12 * i + 4,
                ) == functions[i].end_rva
        },
        runtime_function_check(file, pe, functions) == Ok::<
            bool,
            crate::opcode::evaluate::RuntimeFunctionMismatch,
        >(false) ==> functions.len() == 0,
{
    let directory = pe.nt_headers@.data_directories[3];
    let stored = file.file_range(directory.virtual_address as int);
    if stored is Some {
        let offset = (stored->0).0 as int;
        assert forall|i: int| 0 <= i < functions.len() implies (same_bounds(
            file.bytes@,
            offset,
            functions,
            i,
        ) <==> le32(file.bytes@, offset + 12 * i) == (#[trigger] functions[i]).begin_rva && le32(
            file.bytes@,
            offset + 12 * i + 4,
        ) == functions[i].end_rva) by {
            assert(12 * i == i * 12);
        }
        if crate::opcode::evaluate::all_bounds_same(file.bytes@, offset, functions) {
            assert forall|i: int| 0 <= i < functions.len() implies le32(
                file.bytes@,
                offset + 12 * i,
            ) == (#[trigger] functions[i]).begin_rva && le32(file.bytes@, offset + 12 * i + 4)
                == functions[i].end_rva by {
                assert(same_bounds(file.bytes@, offset, functions, i));
            }
        } else {
            let i = choose|i: int|
                0 <= i < functions.len() && !(#[trigger] same_bounds(
                    file.bytes@,
                    offset,
                    functions,
                    i,
                ));
            assert(functions[i].begin_rva >= 0);
        }
    }
}

/// Differences are reported only of a matched executable with settled relocations and the mapped
/// functions; functions seed a decode only where they are those of a matched executable.
pub proof fn law_trust_is_earned(
    trust: BaselineTrust,
    file: Option<ValidatedPeFile>,
    functions: Seq<RuntimeFunctionRange>,
)
    requires
        trust.decided(file, functions),
    ensures
        trust.functions_trusted <==> trust.evaluation.pe is Some && runtime_function_check(
            file->0,
            trust.evaluation.pe->0,
            functions,
        ) is Ok,
        trust.differences_enabled <==> {
            &&& trust.evaluation.status == ProcessOpcodeBackingStatus::Matched
            &&& trust.evaluation.pe is Some ==> trust.functions_trusted
            &&& trust.evaluation.relocation_status != ProcessOpcodeRelocationStatus::Invalid
            &&& trust.evaluation.relocation_status != ProcessOpcodeRelocationStatus::NotEvaluated
        },
{
}

} // verus!
