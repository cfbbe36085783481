//! Classified opcodes, stated over the bytes of the process and of the raw executable.

use vstd::prelude::*;

use crate::laws::opcodes::{law_first_opcode_offset, law_trap_bytes, opcode_size, opcode_stands};
use crate::laws::traversal::backing_reading;
use crate::opcode::catalog::{begins_with, catalog, catalog_opcode, trap_at, CatalogEntry};
use crate::opcode::decode::{catalog_entry_of, decoded_instruction, DecodedInstruction};
use crate::opcode::hits::{HitView, ProcessOpcodeEvidence};
use crate::opcode::queue::QueueView;
use crate::opcode::relocation::ProcessRelocationRange;
use crate::opcode::traverse::{
    all_granted_twice, avoids_relocations, backing_run, backing_step, initial_backing,
    reported_opcode, BackingContext, BackingState,
};
use crate::pe::snapshot::snapshot_range_available;

verus! {

/// The place of an entry in the catalog.
pub open spec fn position_of(entry: CatalogEntry) -> int {
    match entry {
        CatalogEntry::Int3Breakpoint => 0,
        CatalogEntry::Int1DebugTrap => 1,
        CatalogEntry::IntVector1 => 2,
        CatalogEntry::IntVector3 => 3,
        CatalogEntry::MovFromDebugRegister => 4,
        CatalogEntry::MovToDebugRegister => 5,
    }
}

/// An entry stands for the opcode at its place.
proof fn lemma_position(entry: CatalogEntry)
    ensures
        catalog()[position_of(entry)] == catalog_opcode(entry),
{
}

/// An instruction is a catalog entry exactly by what it does: `int3`, `int1`, `int 1`, `int 3`, or a
/// move from or to one of the eight debug registers whose bytes hold the opcode.
pub proof fn law_catalog_entries(instruction: DecodedInstruction, bytes: Seq<u8>)
    requires
        bytes.len() <= usize::MAX,
    ensures
        ({
            let entry = catalog_entry_of(instruction, bytes);
            &&& entry == Some(CatalogEntry::Int3Breakpoint) <==> instruction.code == 420
            &&& entry == Some(CatalogEntry::Int1DebugTrap) <==> instruction.code == 708
            &&& entry == Some(CatalogEntry::IntVector1) <==> instruction.code == 421
                && instruction.immediate8 == 1
            &&& entry == Some(CatalogEntry::IntVector3) <==> instruction.code == 421
                && instruction.immediate8 == 3
            &&& entry == Some(CatalogEntry::MovFromDebugRegister) <==> instruction.code == 1062
                && 201 <= instruction.op1_register <= 208 && exists|at: int| #[trigger]
                opcode_stands(bytes, at, 4)
            &&& entry == Some(CatalogEntry::MovToDebugRegister) <==> instruction.code == 1066
                && 201 <= instruction.op0_register <= 208 && exists|at: int| #[trigger]
                opcode_stands(bytes, at, 5)
        }),
{
    law_first_opcode_offset(bytes, 4);
    law_first_opcode_offset(bytes, 5);
    lemma_position(CatalogEntry::MovFromDebugRegister);
    lemma_position(CatalogEntry::MovToDebugRegister);
}

/// Whether no relocated byte lies in `[at, at + size)`.
pub open spec fn no_relocation(
    relocations: Seq<ProcessRelocationRange>,
    at: int,
    size: int,
) -> bool {
    forall|i: int|
        0 <= i < relocations.len() ==> (#[trigger] relocations[i]).size == 0 || at + size
            <= relocations[i].rva || relocations[i].rva + relocations[i].size <= at
}

/// The trap at the begin of bytes, by its place in the catalog.
proof fn lemma_trap(bytes: Seq<u8>, entry: CatalogEntry)
    requires
        position_of(entry) < 4,
    ensures
        trap_at(bytes) == Some(entry) <==> opcode_stands(bytes, 0, position_of(entry)),
        begins_with(bytes, catalog_opcode(entry).bytecode) <==> opcode_stands(
            bytes,
            0,
            position_of(entry),
        ),
        catalog_opcode(entry).bytecode.len() == opcode_size(position_of(entry)),
{
    law_trap_bytes(bytes);
    let part = catalog_opcode(entry).bytecode;
    if part.len() <= bytes.len() {
        let first = bytes.subrange(0, part.len() as int);
        assert(first[0] == bytes[0]);
        if part.len() == 2 {
            assert(first[1] == bytes[1]);
        }
        if opcode_stands(bytes, 0, position_of(entry)) {
            assert(first =~= part);
        }
    }
}

/// A trap that stands in the process and not in the raw executable is reported, at a start of both
/// decodes, over available bytes that no relocation touches.
pub proof fn law_every_difference_is_reported(
    context: BackingContext,
    rva: usize,
    entry: Option<CatalogEntry>,
    backing: Seq<u8>,
    trap: CatalogEntry,
)
    requires
        rva + backing.len() <= context.snapshot.bytes@.len(),
        context.current_starts.contains(rva as int),
        snapshot_range_available(context.snapshot, rva as int, backing.len() as int),
        context.differences_enabled,
        position_of(trap) < 4,
        opcode_size(position_of(trap)) <= backing.len(),
        opcode_stands(context.snapshot.bytes@, rva as int, position_of(trap)),
        !opcode_stands(backing, 0, position_of(trap)),
        no_relocation(context.relocations, rva as int, opcode_size(position_of(trap))),
    ensures
        reported_opcode(context, rva, entry, backing) == Some(
            (trap, ProcessOpcodeEvidence::MappedTrapDifference),
        ),
{
    let process = context.snapshot.bytes@.subrange(rva as int, rva + backing.len());
    assert(process[0] == context.snapshot.bytes@[rva as int]);
    if opcode_size(position_of(trap)) == 2 {
        assert(process[1] == context.snapshot.bytes@[rva + 1]);
    }
    lemma_trap(process, trap);
    lemma_trap(backing, trap);
    assert(avoids_relocations(
        context.relocations,
        rva as int,
        opcode_size(position_of(trap)),
    ));
}

/// An opcode that stands alike in the process and in the raw executable is reported, at a start of
/// both decodes, over available bytes.
pub proof fn law_every_unchanged_opcode_is_reported(
    context: BackingContext,
    rva: usize,
    entry: CatalogEntry,
    backing: Seq<u8>,
)
    requires
        rva + backing.len() <= context.snapshot.bytes@.len(),
        context.current_starts.contains(rva as int),
        snapshot_range_available(context.snapshot, rva as int, backing.len() as int),
        context.snapshot.bytes@.subrange(rva as int, rva + backing.len()) == backing,
    ensures
        reported_opcode(context, rva, Some(entry), backing) == Some(
            (entry, ProcessOpcodeEvidence::DecodedStaticInstruction),
        ),
{
    match trap_at(backing) {
        Some(trap) => {
            law_trap_bytes(backing);
            lemma_trap(backing, trap);
        },
        None => {},
    }
}

/// What is reported stands there: at a start of both decodes, over available bytes, as a trap of the
/// process alone or as an opcode of both.
pub proof fn law_reported_opcodes_stand(
    context: BackingContext,
    rva: usize,
    entry: Option<CatalogEntry>,
    backing: Seq<u8>,
)
    requires
        rva + backing.len() <= context.snapshot.bytes@.len(),
        reported_opcode(context, rva, entry, backing) is Some,
    ensures
        context.current_starts.contains(rva as int),
        snapshot_range_available(context.snapshot, rva as int, backing.len() as int),
        ({
            let (reported, evidence) = reported_opcode(context, rva, entry, backing)->0;
            let position = position_of(reported);
            match evidence {
                ProcessOpcodeEvidence::MappedTrapDifference => {
                    &&& context.differences_enabled
                    &&& position < 4
                    &&& opcode_stands(context.snapshot.bytes@, rva as int, position)
                    &&& opcode_size(position) <= backing.len()
                    &&& !opcode_stands(backing, 0, position)
                    &&& no_relocation(context.relocations, rva as int, opcode_size(position))
                },
                ProcessOpcodeEvidence::DecodedStaticInstruction => {
                    &&& entry == Some(reported)
                    &&& forall|i: int|
                        0 <= i < backing.len() ==> #[trigger] backing[i]
                            == context.snapshot.bytes@[rva + i]
                },
            }
        }),
{
    let (reported, evidence) = reported_opcode(context, rva, entry, backing)->0;
    let process = context.snapshot.bytes@.subrange(rva as int, rva + backing.len());
    match evidence {
        ProcessOpcodeEvidence::MappedTrapDifference => {
            law_trap_bytes(process);
            lemma_trap(process, reported);
            lemma_trap(backing, reported);
            assert(process[0] == context.snapshot.bytes@[rva as int]);
            if opcode_size(position_of(reported)) == 2 {
                assert(process[1] == context.snapshot.bytes@[rva + 1]);
            }
            assert forall|i: int| 0 <= i < context.relocations.len() implies (
            #[trigger] context.relocations[i]).size == 0 || rva + opcode_size(
                position_of(reported),
            ) <= context.relocations[i].rva || context.relocations[i].rva
                + context.relocations[i].size <= rva by {}
        },
        ProcessOpcodeEvidence::DecodedStaticInstruction => {
            assert forall|i: int| 0 <= i < backing.len() implies #[trigger] backing[i]
                == context.snapshot.bytes@[rva + i] by {
                assert(process[i] == context.snapshot.bytes@[rva + i]);
            }
        },
    }
}

/// The bytes and the entry of the stored instruction at `rva`, read up to `bound`.
pub open spec fn stored_instruction(context: BackingContext, rva: usize, bound: usize) -> (
    Seq<u8>,
    Option<CatalogEntry>,
) {
    let (offset, end) = context.file.file_range(rva as int)->0;
    let room = if end - offset <= bound - rva {
        end - offset
    } else {
        bound - rva
    };
    let instruction = decoded_instruction(
        context.file.bytes@.subrange(offset as int, offset + room),
        (context.base_address + rva) as u64,
    );
    let bytes = context.file.bytes@.subrange(offset as int, offset + instruction.length);
    (bytes, catalog_entry_of(instruction, bytes))
}

/// Whether what start `r`, read up to `bound`, is to report is among the hits.
spec fn hit_listed(context: BackingContext, hits: Seq<HitView>, r: int, bound: usize) -> bool {
    let (bytes, entry) = stored_instruction(context, r as usize, bound);
    &&& 0 <= r <= usize::MAX
    &&& backing_reading(context, r as usize, bound) is Some
    &&& match reported_opcode(context, r as usize, entry, bytes) {
        Some((reported, evidence)) => exists|n: int|
            0 <= n < hits.len() && (#[trigger] hits[n]).instruction_rva == r && hits[n].name
                == catalog_opcode(reported).name && hits[n].evidence == evidence
                && hits[n].backing_instruction_bytes == bytes,
        None => true,
    }
}

/// Whether start `r` is listed for some bound.
spec fn is_hit_listed(context: BackingContext, hits: Seq<HitView>, r: int) -> bool {
    exists|bound: usize| #[trigger] hit_listed(context, hits, r, bound)
}

/// Hits that are listed stay listed.
proof fn lemma_listed_stays(
    context: BackingContext,
    before: Seq<HitView>,
    after: Seq<HitView>,
    r: int,
)
    requires
        is_hit_listed(context, before, r),
        before.len() <= after.len(),
        forall|n: int| 0 <= n < before.len() ==> #[trigger] after[n] == before[n],
    ensures
        is_hit_listed(context, after, r),
{
    let bound = choose|bound: usize| #[trigger] hit_listed(context, before, r, bound);
    let (bytes, entry) = stored_instruction(context, r as usize, bound);
    match reported_opcode(context, r as usize, entry, bytes) {
        Some((reported, evidence)) => {
            let n = choose|n: int|
                0 <= n < before.len() && (#[trigger] before[n]).instruction_rva == r
                    && before[n].name == catalog_opcode(reported).name && before[n].evidence
                    == evidence && before[n].backing_instruction_bytes == bytes;
            assert(after[n] == before[n]);
        },
        None => {},
    }
    assert(hit_listed(context, after, r, bound));
}

/// One step lists what it finds.
proof fn lemma_step_lists(context: BackingContext, state: BackingState)
    requires
        context.snapshot.bytes@.len() <= usize::MAX,
        forall|r: int| #[trigger]
            state.traversal.starts.contains(r) ==> is_hit_listed(context, state.log.hits, r),
        !backing_step(context, state, (true, true)).log.hits_truncated,
    ensures
        ({
            let after = backing_step(context, state, (true, true));
            forall|r: int| #[trigger]
                after.traversal.starts.contains(r) ==> is_hit_listed(context, after.log.hits, r)
        }),
        !state.log.hits_truncated,
{
    let after = backing_step(context, state, (true, true));
    let before_hits = state.log.hits;
    let after_hits = after.log.hits;
    assert(before_hits.len() <= after_hits.len());
    assert(forall|n: int| 0 <= n < before_hits.len() ==> #[trigger] after_hits[n]
        == before_hits[n]);
    assert forall|r: int| #[trigger] after.traversal.starts.contains(r) implies is_hit_listed(
        context,
        after_hits,
        r,
    ) by {
        if state.traversal.starts.contains(r) {
            lemma_listed_stays(context, before_hits, after_hits, r);
        } else {
            let (task, rva) = state.traversal.position->0;
            assert(r == rva);
            let bound = task.bound_end;
            let (bytes, entry) = stored_instruction(context, rva, bound);
            match reported_opcode(context, rva, entry, bytes) {
                Some((reported, evidence)) => {
                    let n = before_hits.len() as int;
                    assert(after_hits.len() == n + 1);
                    assert(after_hits[n].instruction_rva == r);
                    assert(after_hits[n].name == catalog_opcode(reported).name);
                    assert(after_hits[n].evidence == evidence);
                    assert(after_hits[n].backing_instruction_bytes == bytes);
                },
                None => {},
            }
            assert(hit_listed(context, after_hits, r, bound));
        }
    }
}

/// A run without a truncated list lists what it finds.
proof fn lemma_run_lists(
    context: BackingContext,
    queue: QueueView,
    summaries: Seq<crate::opcode::hits::SummaryView>,
    steps: nat,
)
    requires
        context.snapshot.bytes@.len() <= usize::MAX,
        !backing_run(
            context,
            initial_backing(queue, summaries),
            all_granted_twice(steps),
        ).log.hits_truncated,
    ensures
        ({
            let end = backing_run(
                context,
                initial_backing(queue, summaries),
                all_granted_twice(steps),
            );
            forall|r: int| #[trigger]
                end.traversal.starts.contains(r) ==> is_hit_listed(context, end.log.hits, r)
        }),
    decreases steps,
{
    if steps > 0 {
        let fewer = (steps - 1) as nat;
        assert(all_granted_twice(steps).drop_last() =~= all_granted_twice(fewer));
        assert(all_granted_twice(steps).last() == (true, true));
        let state = backing_run(
            context,
            initial_backing(queue, summaries),
            all_granted_twice(fewer),
        );
        assert(!state.log.hits_truncated);
        lemma_run_lists(context, queue, summaries, fewer);
        lemma_step_lists(context, state);
    }
}

/// Every start of the decode of the raw executable whose instruction is to be reported has its hit,
/// where the list is not truncated.
pub proof fn law_every_reported_start_has_its_hit(
    context: BackingContext,
    queue: QueueView,
    summaries: Seq<crate::opcode::hits::SummaryView>,
    steps: nat,
    r: int,
) -> (bound: usize)
    requires
        context.snapshot.bytes@.len() <= usize::MAX,
        ({
            let end = backing_run(
                context,
                initial_backing(queue, summaries),
                all_granted_twice(steps),
            );
            !end.log.hits_truncated && end.traversal.starts.contains(r)
        }),
    ensures
        0 <= r <= usize::MAX,
        backing_reading(context, r as usize, bound) is Some,
        ({
            let hits = backing_run(
                context,
                initial_backing(queue, summaries),
                all_granted_twice(steps),
            ).log.hits;
            let (bytes, entry) = stored_instruction(context, r as usize, bound);
            match reported_opcode(context, r as usize, entry, bytes) {
                Some((reported, evidence)) => exists|n: int|
                    0 <= n < hits.len() && (#[trigger] hits[n]).instruction_rva == r && hits[n].name
                        == catalog_opcode(reported).name && hits[n].evidence == evidence
                        && hits[n].backing_instruction_bytes == bytes,
                None => true,
            }
        }),
{
    lemma_run_lists(context, queue, summaries, steps);
    let hits = backing_run(
        context,
        initial_backing(queue, summaries),
        all_granted_twice(steps),
    ).log.hits;
    assert(is_hit_listed(context, hits, r));
    choose|bound: usize| #[trigger] hit_listed(context, hits, r, bound)
}

} // verus!
